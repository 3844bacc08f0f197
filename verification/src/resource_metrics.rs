//! The metrics of a cluster: which calls are made for them, in which order, and what
//! is reported of the answers.

use crate::error::{
    client_error_kind, client_failure, AppError, AppErrorKind, AppErrorView, KubeError,
};
use crate::json::JsonValue;
use crate::listing::{
    classify_metrics_error, collect_metric_objects, collect_owned_objects, failures_in,
    first_failure, has_metrics_api, list_scopes, list_status, listed, metrics_api_resource,
    offers_metrics, scopes_of, DiscoveredGroup, MetricsListStatus, MetricsObjectList,
};
use crate::metrics::{
    a_node_uses_what_it_says, a_sample_tells_of_its_object, metric_from_object, metric_of,
    usage_text, MetricsObject, ResourceMetricSummary, ResourceMetricView,
};
use crate::quantity::{
    cpu_millicores, memory_bytes, NumberClass, Numbers, NumbersView, Scale,
};
use crate::text::{decimal_digits, decimal_text, text_opt, text_seq};
use crate::validation::{is_path_segment, segment_failure, validate_namespace, ApiResource};
use crate::workload::{aggregate_workload_metrics, metric_views, workload_metrics, OwnedObject};
use vstd::prelude::*;
use vstd::string::*;

verus! {

/// Whether a cluster tells its metrics.
#[derive(Debug, Clone, Copy, PartialEq, Eq, Structural)]
pub enum ResourceMetricsAvailabilityStatus {
    Available,
    Unavailable,
    Forbidden,
    NoSamples,
}

impl ResourceMetricsAvailabilityStatus {
    /// The name of the status.
    pub open spec fn name(self) -> Seq<char> {
        match self {
            ResourceMetricsAvailabilityStatus::Available => "Available"@,
            ResourceMetricsAvailabilityStatus::Unavailable => "Unavailable"@,
            ResourceMetricsAvailabilityStatus::Forbidden => "Forbidden"@,
            ResourceMetricsAvailabilityStatus::NoSamples => "NoSamples"@,
        }
    }

    /// The name of the status.
    pub fn as_str(self) -> (name: &'static str)
        ensures
            name@ == self.name(),
    {
        match self {
            ResourceMetricsAvailabilityStatus::Available => "Available",
            ResourceMetricsAvailabilityStatus::Unavailable => "Unavailable",
            ResourceMetricsAvailabilityStatus::Forbidden => "Forbidden",
            ResourceMetricsAvailabilityStatus::NoSamples => "NoSamples",
        }
    }
}

/// Whether a cluster tells its metrics, in words too.
#[derive(Debug)]
pub struct ResourceMetricsAvailability {
    pub status: ResourceMetricsAvailabilityStatus,
    pub message: Option<String>,
}

/// The status with words.
pub fn availability(status: ResourceMetricsAvailabilityStatus, message: &str) -> (available:
    ResourceMetricsAvailability)
    ensures
        available.status == status,
        text_opt(available.message) == Some(message@),
{
    ResourceMetricsAvailability { status, message: Some(message.to_owned()) }
}

/// The metrics of a cluster.
#[derive(Debug)]
pub struct ResourceMetricsSummary<F> {
    pub cluster: String,
    pub availability: ResourceMetricsAvailability,
    pub pods: Vec<ResourceMetricSummary<F>>,
    pub nodes: Vec<ResourceMetricSummary<F>>,
    pub workloads: Vec<ResourceMetricSummary<F>>,
    pub warnings: Vec<String>,
}

/// What a [`ResourceMetricsSummary`] says.
#[verifier::ext_equal]
pub struct ResourceMetricsView<F> {
    pub cluster: Seq<char>,
    pub status: ResourceMetricsAvailabilityStatus,
    pub message: Option<Seq<char>>,
    pub pods: Seq<ResourceMetricView<F>>,
    pub nodes: Seq<ResourceMetricView<F>>,
    pub workloads: Seq<ResourceMetricView<F>>,
    pub warnings: Seq<Seq<char>>,
}

impl<F> View for ResourceMetricsSummary<F> {
    type V = ResourceMetricsView<F>;

    open spec fn view(&self) -> ResourceMetricsView<F> {
        ResourceMetricsView {
            cluster: self.cluster@,
            status: self.availability.status,
            message: text_opt(self.availability.message),
            pods: metric_views(self.pods@),
            nodes: metric_views(self.nodes@),
            workloads: metric_views(self.workloads@),
            warnings: text_seq(self.warnings@),
        }
    }
}

/// A summary without metrics.
pub open spec fn no_metrics<F>(
    cluster: Seq<char>,
    status: ResourceMetricsAvailabilityStatus,
    message: Seq<char>,
    warnings: Seq<Seq<char>>,
) -> ResourceMetricsView<F> {
    ResourceMetricsView {
        cluster,
        status,
        message: Some(message),
        pods: seq![],
        nodes: seq![],
        workloads: seq![],
        warnings,
    }
}

fn empty_summary<F>(
    cluster_context: String,
    status: ResourceMetricsAvailabilityStatus,
    message: &str,
    warnings: Vec<String>,
) -> (summary: ResourceMetricsSummary<F>)
    ensures
        summary@ == no_metrics::<F>(
            cluster_context@,
            status,
            message@,
            text_seq(warnings@),
        ),
{
    let summary: ResourceMetricsSummary<F> = ResourceMetricsSummary {
        cluster: cluster_context,
        availability: availability(status, message),
        pods: Vec::new(),
        nodes: Vec::new(),
        workloads: Vec::new(),
        warnings,
    };
    assert(summary@ =~= no_metrics::<F>(
        cluster_context@,
        status,
        message@,
        text_seq(warnings@),
    ));
    summary
}

/// The summary of a cluster whose discovery failed.
pub open spec fn discovery_failure<F>(
    cluster: Seq<char>,
    error: AppErrorView,
) -> ResourceMetricsView<F> {
    let forbidden = error.kind == AppErrorKind::Forbidden;
    no_metrics(
        cluster,
        if forbidden {
            ResourceMetricsAvailabilityStatus::Forbidden
        } else {
            ResourceMetricsAvailabilityStatus::Unavailable
        },
        if forbidden {
            "metrics API forbidden"@
        } else {
            "metrics API unavailable"@
        },
        seq!["Metrics discovery unavailable: "@ + error.message],
    )
}

/// The summary of a cluster whose discovery failed.
pub fn discovery_failure_summary<F>(cluster_context: String, error: &AppError) -> (summary:
    ResourceMetricsSummary<F>)
    ensures
        summary@ == discovery_failure::<F>(cluster_context@, error@),
{
    let warning: String = "Metrics discovery unavailable: ".to_owned().concat(
        error.message.as_str(),
    );
    let mut warnings: Vec<String> = Vec::new();
    warnings.push(warning);
    assert(text_seq(warnings@) =~= seq!["Metrics discovery unavailable: "@ + error@.message]);
    if error.kind == AppErrorKind::Forbidden {
        empty_summary(
            cluster_context,
            ResourceMetricsAvailabilityStatus::Forbidden,
            "metrics API forbidden",
            warnings,
        )
    } else {
        empty_summary(
            cluster_context,
            ResourceMetricsAvailabilityStatus::Unavailable,
            "metrics API unavailable",
            warnings,
        )
    }
}

/// What could be listed of pods and replica sets.
#[derive(Debug)]
pub enum WorkloadLists {
    PodsFailed { message: String },
    ReplicaSetsFailed { pods: Vec<OwnedObject>, message: String },
    Listed { pods: Vec<OwnedObject>, replicasets: Vec<OwnedObject> },
}

/// What [`WorkloadLists`] say.
pub enum WorkloadListsView {
    PodsFailed { message: Seq<char> },
    ReplicaSetsFailed { pods: Seq<OwnedObject>, message: Seq<char> },
    Listed { pods: Seq<OwnedObject>, replicasets: Seq<OwnedObject> },
}

impl View for WorkloadLists {
    type V = WorkloadListsView;

    open spec fn view(&self) -> WorkloadListsView {
        match *self {
            WorkloadLists::PodsFailed { message } => WorkloadListsView::PodsFailed {
                message: message@,
            },
            WorkloadLists::ReplicaSetsFailed { pods, message } =>
                WorkloadListsView::ReplicaSetsFailed { pods: pods@, message: message@ },
            WorkloadLists::Listed { pods, replicasets } => WorkloadListsView::Listed {
                pods: pods@,
                replicasets: replicasets@,
            },
        }
    }
}

/// The metrics that `objects` tell.
pub open spec fn metrics_of<F>(
    numbers: NumbersView<F>,
    cluster: Seq<char>,
    kind: Seq<char>,
    objects: Seq<MetricsObject>,
) -> Seq<ResourceMetricView<F>> {
    objects.map_values(|object: MetricsObject| metric_of(numbers, cluster, kind, object))
}

/// The metrics of nodes: none where they could not be listed.
pub open spec fn node_metrics<F>(
    numbers: NumbersView<F>,
    cluster: Seq<char>,
    nodes: Result<Seq<MetricsObject>, MetricsListStatus>,
) -> Seq<ResourceMetricView<F>> {
    match nodes {
        Ok(objects) => metrics_of(numbers, cluster, "Node"@, objects),
        Err(_) => seq![],
    }
}

/// What is warned of where metrics of pods or nodes could not be listed.
pub open spec fn listing_warnings(
    pod_failures: Seq<MetricsListStatus>,
    nodes: Result<Seq<MetricsObject>, MetricsListStatus>,
) -> Seq<Seq<char>> {
    (if pod_failures.contains(MetricsListStatus::Forbidden) {
        seq!["Pod metrics forbidden"@]
    } else {
        seq![]
    }) + (if pod_failures.contains(MetricsListStatus::Unavailable) {
        seq!["Pod metrics unavailable"@]
    } else {
        seq![]
    }) + (match nodes {
        Ok(_) => seq![],
        Err(MetricsListStatus::Forbidden) => seq!["Node metrics forbidden"@],
        Err(MetricsListStatus::Unavailable) => seq!["Node metrics unavailable"@],
    })
}

/// What is warned of where pods or replica sets could not be listed.
pub open spec fn workload_warnings(lists: WorkloadListsView) -> Seq<Seq<char>> {
    match lists {
        WorkloadListsView::PodsFailed { message } => seq![
            "Workload metrics unavailable: "@ + message,
        ],
        WorkloadListsView::ReplicaSetsFailed { message, .. } => seq![
            "Workload owner rollup unavailable: "@ + message,
        ],
        WorkloadListsView::Listed { .. } => seq![],
    }
}

/// The metrics of workloads: without replica sets a pod counts for its owner alone.
pub open spec fn metrics_of_workloads<F>(
    numbers: NumbersView<F>,
    cluster: Seq<char>,
    lists: WorkloadListsView,
    pods: Seq<ResourceMetricView<F>>,
) -> Seq<ResourceMetricView<F>> {
    match lists {
        WorkloadListsView::PodsFailed { .. } => seq![],
        WorkloadListsView::ReplicaSetsFailed { pods: owned, .. } => workload_metrics(
            numbers,
            cluster,
            owned,
            seq![],
            pods,
        ),
        WorkloadListsView::Listed { pods: owned, replicasets } => workload_metrics(
            numbers,
            cluster,
            owned,
            replicasets,
            pods,
        ),
    }
}

/// Whether metrics are there: any sample will do, and where there is none a refusal
/// weighs more than another failure.
pub open spec fn status_of(
    samples: bool,
    pod_failures: Seq<MetricsListStatus>,
    nodes: Result<Seq<MetricsObject>, MetricsListStatus>,
) -> ResourceMetricsAvailabilityStatus {
    if samples {
        ResourceMetricsAvailabilityStatus::Available
    } else if pod_failures.contains(MetricsListStatus::Forbidden) || nodes == Err::<
        Seq<MetricsObject>,
        MetricsListStatus,
    >(MetricsListStatus::Forbidden) {
        ResourceMetricsAvailabilityStatus::Forbidden
    } else if pod_failures.contains(MetricsListStatus::Unavailable) || nodes == Err::<
        Seq<MetricsObject>,
        MetricsListStatus,
    >(MetricsListStatus::Unavailable) {
        ResourceMetricsAvailabilityStatus::Unavailable
    } else {
        ResourceMetricsAvailabilityStatus::NoSamples
    }
}

/// The words for a status.
pub open spec fn status_message(status: ResourceMetricsAvailabilityStatus) -> Seq<char> {
    match status {
        ResourceMetricsAvailabilityStatus::Available => "metrics available"@,
        ResourceMetricsAvailabilityStatus::Unavailable => "metrics API unavailable"@,
        ResourceMetricsAvailabilityStatus::Forbidden => "forbidden"@,
        ResourceMetricsAvailabilityStatus::NoSamples => "no samples yet"@,
    }
}

/// The metrics of a cluster, by what was listed.
pub open spec fn summary_of<F>(
    numbers: NumbersView<F>,
    cluster: Seq<char>,
    pod_objects: Seq<MetricsObject>,
    pod_failures: Seq<MetricsListStatus>,
    nodes: Result<Seq<MetricsObject>, MetricsListStatus>,
    lists: WorkloadListsView,
) -> ResourceMetricsView<F> {
    let pod_metrics = metrics_of(numbers, cluster, "Pod"@, pod_objects);
    let of_nodes = node_metrics(numbers, cluster, nodes);
    let status = status_of(
        pod_metrics.len() > 0 || of_nodes.len() > 0,
        pod_failures,
        nodes,
    );
    ResourceMetricsView {
        cluster,
        status,
        message: Some(status_message(status)),
        pods: pod_metrics,
        nodes: of_nodes,
        workloads: metrics_of_workloads(numbers, cluster, lists, pod_metrics),
        warnings: listing_warnings(pod_failures, nodes) + workload_warnings(lists),
    }
}

/// The list of nodes as contracts speak of it.
pub open spec fn nodes_view(nodes: Result<Vec<MetricsObject>, MetricsListStatus>) -> Result<
    Seq<MetricsObject>,
    MetricsListStatus,
> {
    match nodes {
        Ok(objects) => Ok(objects@),
        Err(status) => Err(status),
    }
}

fn has_status(failures: &Vec<MetricsListStatus>, status: MetricsListStatus) -> (found: bool)
    ensures
        found == failures@.contains(status),
{
    let mut i: usize = 0;
    while i < failures.len()
        invariant
            i <= failures@.len(),
            forall|j: int| 0 <= j < i ==> failures@[j] != status,
        decreases failures@.len() - i,
    {
        if failures[i] == status {
            assert(failures@[i as int] == status);
            return true;
        }
        i = i + 1;
    }
    false
}

fn metrics_from_objects<
    F: Copy,
    R: Fn(&str) -> Option<F>,
    S: Fn(F, Scale) -> F,
    C: Fn(F) -> NumberClass,
    P: Fn(F, F) -> F,
    N: Fn(F) -> u128,
>(
    numbers: &Numbers<F, R, S, C, P, N>,
    cluster_context: &str,
    kind: &str,
    objects: &Vec<MetricsObject>,
) -> (metrics: Vec<ResourceMetricSummary<F>>)
    requires
        numbers.inv(),
    ensures
        metric_views(metrics@) == metrics_of(numbers@, cluster_context@, kind@, objects@),
{
    let mut metrics: Vec<ResourceMetricSummary<F>> = Vec::new();
    let ghost all = metrics_of(numbers@, cluster_context@, kind@, objects@);
    let mut i: usize = 0;
    assert(metric_views(metrics@) =~= all.take(0));
    while i < objects.len()
        invariant
            numbers.inv(),
            i <= objects@.len(),
            all == metrics_of(numbers@, cluster_context@, kind@, objects@),
            metric_views(metrics@) == all.take(i as int),
        decreases objects@.len() - i,
    {
        let ghost before = metric_views(metrics@);
        let metric: ResourceMetricSummary<F> = metric_from_object(
            numbers,
            cluster_context,
            kind,
            &objects[i],
        );
        metrics.push(metric);
        assert(metric_views(metrics@) =~= before.push(all[i as int]));
        assert(all.take(i + 1) =~= all.take(i as int).push(all[i as int]));
        i = i + 1;
    }
    assert(all.take(i as int) =~= all);
    metrics
}

fn push_warning(warnings: &mut Vec<String>, warning: String)
    ensures
        text_seq(final(warnings)@) == text_seq(old(warnings)@).push(warning@),
{
    let ghost before = text_seq(warnings@);
    warnings.push(warning);
    assert(text_seq(warnings@) =~= before.push(warning@));
}

/// What is warned of where metrics of pods or nodes could not be listed.
fn warnings_of_listing(
    pod_failures: &Vec<MetricsListStatus>,
    nodes: &Result<Vec<MetricsObject>, MetricsListStatus>,
) -> (warnings: Vec<String>)
    ensures
        text_seq(warnings@) == listing_warnings(pod_failures@, nodes_view(*nodes)),
{
    let mut warnings: Vec<String> = Vec::new();
    assert(text_seq(warnings@) =~= seq![]);
    if has_status(pod_failures, MetricsListStatus::Forbidden) {
        push_warning(&mut warnings, "Pod metrics forbidden".to_owned());
    }
    if has_status(pod_failures, MetricsListStatus::Unavailable) {
        push_warning(&mut warnings, "Pod metrics unavailable".to_owned());
    }
    match nodes {
        Ok(_) => {},
        Err(MetricsListStatus::Forbidden) => {
            push_warning(&mut warnings, "Node metrics forbidden".to_owned());
        },
        Err(MetricsListStatus::Unavailable) => {
            push_warning(&mut warnings, "Node metrics unavailable".to_owned());
        },
    }
    assert(text_seq(warnings@) =~= listing_warnings(pod_failures@, nodes_view(*nodes)));
    warnings
}

fn is_status(nodes: &Result<Vec<MetricsObject>, MetricsListStatus>, status: MetricsListStatus) -> (
    same: bool)
    ensures
        same == (nodes_view(*nodes) == Err::<Seq<MetricsObject>, MetricsListStatus>(status)),
{
    match nodes {
        Ok(_) => false,
        Err(found) => *found == status,
    }
}

/// The words for a status.
pub fn availability_message(status: ResourceMetricsAvailabilityStatus) -> (message: &'static str)
    ensures
        message@ == status_message(status),
{
    match status {
        ResourceMetricsAvailabilityStatus::Available => "metrics available",
        ResourceMetricsAvailabilityStatus::Unavailable => "metrics API unavailable",
        ResourceMetricsAvailabilityStatus::Forbidden => "forbidden",
        ResourceMetricsAvailabilityStatus::NoSamples => "no samples yet",
    }
}

/// The metrics of a cluster, by what was listed.
pub fn summarize<
    F: Copy,
    R: Fn(&str) -> Option<F>,
    S: Fn(F, Scale) -> F,
    C: Fn(F) -> NumberClass,
    P: Fn(F, F) -> F,
    N: Fn(F) -> u128,
>(
    numbers: &Numbers<F, R, S, C, P, N>,
    cluster_context: String,
    pod_list: MetricsObjectList,
    node_list: Result<Vec<MetricsObject>, MetricsListStatus>,
    lists: WorkloadLists,
) -> (summary: ResourceMetricsSummary<F>)
    requires
        numbers.inv(),
    ensures
        summary@ == summary_of(
            numbers@,
            cluster_context@,
            pod_list.objects@,
            pod_list.failures@,
            nodes_view(node_list),
            lists@,
        ),
        summary.pods@.len() == pod_list.objects@.len(),
        node_list matches Ok(objects) ==> summary.nodes@.len() == objects@.len(),
        node_list is Err ==> summary.nodes@.len() == 0,
{
    let mut warnings: Vec<String> = warnings_of_listing(&pod_list.failures, &node_list);
    let pods: Vec<ResourceMetricSummary<F>> = metrics_from_objects(
        numbers,
        cluster_context.as_str(),
        "Pod",
        &pod_list.objects,
    );
    let nodes: Vec<ResourceMetricSummary<F>> = match &node_list {
        Ok(objects) => metrics_from_objects(numbers, cluster_context.as_str(), "Node", objects),
        Err(_) => Vec::new(),
    };
    assert(metric_views(nodes@) =~= node_metrics(
        numbers@,
        cluster_context@,
        nodes_view(node_list),
    ));
    assert(metric_views(pods@).len() == pods@.len());
    assert(metric_views(nodes@).len() == nodes@.len());
    let workloads: Vec<ResourceMetricSummary<F>> = match &lists {
        WorkloadLists::PodsFailed { message } => {
            push_warning(
                &mut warnings,
                "Workload metrics unavailable: ".to_owned().concat(message.as_str()),
            );
            Vec::new()
        },
        WorkloadLists::ReplicaSetsFailed { pods: owned, message } => {
            push_warning(
                &mut warnings,
                "Workload owner rollup unavailable: ".to_owned().concat(message.as_str()),
            );
            let none: Vec<OwnedObject> = Vec::new();
            assert(none@ =~= seq![]);
            aggregate_workload_metrics(
                numbers,
                cluster_context.as_str(),
                owned.as_slice(),
                none.as_slice(),
                pods.as_slice(),
            )
        },
        WorkloadLists::Listed { pods: owned, replicasets } => aggregate_workload_metrics(
            numbers,
            cluster_context.as_str(),
            owned.as_slice(),
            replicasets.as_slice(),
            pods.as_slice(),
        ),
    };
    let status: ResourceMetricsAvailabilityStatus = if pods.len() > 0 || nodes.len() > 0 {
        ResourceMetricsAvailabilityStatus::Available
    } else if has_status(&pod_list.failures, MetricsListStatus::Forbidden) || is_status(
        &node_list,
        MetricsListStatus::Forbidden,
    ) {
        ResourceMetricsAvailabilityStatus::Forbidden
    } else if has_status(&pod_list.failures, MetricsListStatus::Unavailable) || is_status(
        &node_list,
        MetricsListStatus::Unavailable,
    ) {
        ResourceMetricsAvailabilityStatus::Unavailable
    } else {
        ResourceMetricsAvailabilityStatus::NoSamples
    };
    let summary: ResourceMetricsSummary<F> = ResourceMetricsSummary {
        cluster: cluster_context,
        availability: availability(status, availability_message(status)),
        pods,
        nodes,
        workloads,
        warnings,
    };
    assert(summary@ =~= summary_of(
        numbers@,
        cluster_context@,
        pod_list.objects@,
        pod_list.failures@,
        nodes_view(node_list),
        lists@,
    ));
    summary
}

/// Metrics count as available exactly where there is a sample of a pod or a node,
/// whatever else failed.
pub proof fn available_means_a_sample<F>(
    numbers: NumbersView<F>,
    cluster: Seq<char>,
    pod_objects: Seq<MetricsObject>,
    pod_failures: Seq<MetricsListStatus>,
    nodes: Result<Seq<MetricsObject>, MetricsListStatus>,
    lists: WorkloadListsView,
)
    ensures
        ({
            let summary = summary_of(numbers, cluster, pod_objects, pod_failures, nodes, lists);
            summary.status is Available <==> summary.pods.len() > 0 || summary.nodes.len() > 0
        }),
{
}

/// Where everything could be listed, nothing is warned of.
pub proof fn no_failure_no_warning<F>(
    numbers: NumbersView<F>,
    cluster: Seq<char>,
    pod_objects: Seq<MetricsObject>,
    nodes: Seq<MetricsObject>,
    pods: Seq<OwnedObject>,
    replicasets: Seq<OwnedObject>,
)
    ensures
        summary_of(
            numbers,
            cluster,
            pod_objects,
            seq![],
            Ok(nodes),
            WorkloadListsView::Listed { pods, replicasets },
        ).warnings == Seq::<Seq<char>>::empty(),
{
    let none = Seq::<MetricsListStatus>::empty();
    assert(!none.contains(MetricsListStatus::Forbidden));
    assert(!none.contains(MetricsListStatus::Unavailable));
    assert(listing_warnings(none, Ok(nodes)) =~= seq![]);
}

/// Where the metrics of a summary are being listed, and what is known already.
#[derive(Debug)]
pub enum MetricsPhase {
    /// The client is being made.
    Connecting,
    /// The groups of the cluster are being discovered.
    Discovering,
    /// The metrics of pods are being listed.
    PodMetrics,
    /// The metrics of nodes are being listed.
    NodeMetrics { pods: MetricsObjectList },
    /// Pods are being listed.
    Pods { pods: MetricsObjectList, nodes: Result<Vec<MetricsObject>, MetricsListStatus> },
    /// Replica sets are being listed.
    ReplicaSets {
        pods: MetricsObjectList,
        nodes: Result<Vec<MetricsObject>, MetricsListStatus>,
        owned: Vec<OwnedObject>,
    },
    /// The request is answered.
    Finished,
}

/// What a [`MetricsPhase`] says.
pub enum MetricsPhaseView {
    Connecting,
    Discovering,
    PodMetrics,
    NodeMetrics { objects: Seq<MetricsObject>, failures: Seq<MetricsListStatus> },
    Pods {
        objects: Seq<MetricsObject>,
        failures: Seq<MetricsListStatus>,
        nodes: Result<Seq<MetricsObject>, MetricsListStatus>,
    },
    ReplicaSets {
        objects: Seq<MetricsObject>,
        failures: Seq<MetricsListStatus>,
        nodes: Result<Seq<MetricsObject>, MetricsListStatus>,
        owned: Seq<OwnedObject>,
    },
    Finished,
}

impl View for MetricsPhase {
    type V = MetricsPhaseView;

    open spec fn view(&self) -> MetricsPhaseView {
        match *self {
            MetricsPhase::Connecting => MetricsPhaseView::Connecting,
            MetricsPhase::Discovering => MetricsPhaseView::Discovering,
            MetricsPhase::PodMetrics => MetricsPhaseView::PodMetrics,
            MetricsPhase::NodeMetrics { pods } => MetricsPhaseView::NodeMetrics {
                objects: pods.objects@,
                failures: pods.failures@,
            },
            MetricsPhase::Pods { pods, nodes } => MetricsPhaseView::Pods {
                objects: pods.objects@,
                failures: pods.failures@,
                nodes: nodes_view(nodes),
            },
            MetricsPhase::ReplicaSets { pods, nodes, owned } => MetricsPhaseView::ReplicaSets {
                objects: pods.objects@,
                failures: pods.failures@,
                nodes: nodes_view(nodes),
                owned: owned@,
            },
            MetricsPhase::Finished => MetricsPhaseView::Finished,
        }
    }
}

/// How the last call went.
#[derive(Debug)]
pub enum MetricsEvent {
    Connected,
    ConnectFailed(AppError),
    Discovered(Vec<DiscoveredGroup>),
    DiscoveryFailed(KubeError),
    /// One answer for each scope, in order.
    PodMetrics(Vec<Result<Vec<MetricsObject>, KubeError>>),
    NodeMetrics(Result<Vec<MetricsObject>, KubeError>),
    /// One answer for each scope, in order.
    Pods(Vec<Result<Vec<OwnedObject>, KubeError>>),
    /// One answer for each scope, in order.
    ReplicaSets(Vec<Result<Vec<OwnedObject>, KubeError>>),
}

/// Which call is to be made next.
#[derive(Debug)]
pub enum MetricsAction<F> {
    /// Make a client for the context.
    Connect,
    /// Discover the groups of the cluster.
    Discover,
    /// List the metrics of pods in each scope.
    ListPodMetrics { scopes: Vec<Option<String>> },
    /// List the metrics of nodes.
    ListNodeMetrics,
    /// List the pods in each scope.
    ListPods { scopes: Vec<Option<String>> },
    /// List the replica sets in each scope.
    ListReplicaSets { scopes: Vec<Option<String>> },
    /// None: the request is answered.
    Finish(Result<ResourceMetricsSummary<F>, AppError>),
    /// None: the event does not answer the last call.
    Ignore,
}

/// What a [`MetricsAction`] says.
pub enum MetricsActionView<F> {
    Connect,
    Discover,
    ListPodMetrics { scopes: Seq<Option<Seq<char>>> },
    ListNodeMetrics,
    ListPods { scopes: Seq<Option<Seq<char>>> },
    ListReplicaSets { scopes: Seq<Option<Seq<char>>> },
    Finish(Result<ResourceMetricsView<F>, AppErrorView>),
    Ignore,
}

impl<F> View for MetricsAction<F> {
    type V = MetricsActionView<F>;

    open spec fn view(&self) -> MetricsActionView<F> {
        match *self {
            MetricsAction::Connect => MetricsActionView::Connect,
            MetricsAction::Discover => MetricsActionView::Discover,
            MetricsAction::ListPodMetrics { scopes } => MetricsActionView::ListPodMetrics {
                scopes: scopes@.map_values(|scope: Option<String>| text_opt(scope)),
            },
            MetricsAction::ListNodeMetrics => MetricsActionView::ListNodeMetrics,
            MetricsAction::ListPods { scopes } => MetricsActionView::ListPods {
                scopes: scopes@.map_values(|scope: Option<String>| text_opt(scope)),
            },
            MetricsAction::ListReplicaSets { scopes } => MetricsActionView::ListReplicaSets {
                scopes: scopes@.map_values(|scope: Option<String>| text_opt(scope)),
            },
            MetricsAction::Finish(answer) => MetricsActionView::Finish(
                match answer {
                    Ok(summary) => Ok(summary@),
                    Err(error) => Err(error@),
                },
            ),
            MetricsAction::Ignore => MetricsActionView::Ignore,
        }
    }
}

/// A request for the metrics of a cluster.
#[derive(Debug)]
pub struct MetricsRequest {
    pub cluster_context: String,
    pub namespaces: Vec<String>,
    pub phase: MetricsPhase,
}

/// What a [`MetricsRequest`] says.
pub struct MetricsRequestView {
    pub cluster: Seq<char>,
    pub namespaces: Seq<String>,
    pub phase: MetricsPhaseView,
}

impl View for MetricsRequest {
    type V = MetricsRequestView;

    open spec fn view(&self) -> MetricsRequestView {
        MetricsRequestView {
            cluster: self.cluster_context@,
            namespaces: self.namespaces@,
            phase: self.phase@,
        }
    }
}

/// Whether every namespace can go into a request path.
pub open spec fn namespaces_are_valid(namespaces: Seq<String>) -> bool {
    forall|i: int| 0 <= i < namespaces.len() ==> is_path_segment((#[trigger] namespaces[i])@)
}

/// How a request begins: a namespace that cannot go into a request path ends it before
/// any call.
pub open spec fn metrics_start<F>(namespaces: Seq<String>) -> (
    MetricsPhaseView,
    MetricsActionView<F>,
) {
    if namespaces_are_valid(namespaces) {
        (MetricsPhaseView::Connecting, MetricsActionView::Connect)
    } else {
        (
            MetricsPhaseView::Finished,
            MetricsActionView::Finish(Err(segment_failure("namespace"@))),
        )
    }
}

/// Where a request stands after `event`, and which call is to be made then.
pub open spec fn metrics_step<F>(
    numbers: NumbersView<F>,
    request: MetricsRequestView,
    event: MetricsEvent,
) -> (MetricsPhaseView, MetricsActionView<F>) {
    match (request.phase, event) {
        (MetricsPhaseView::Connecting, MetricsEvent::Connected) => (
            MetricsPhaseView::Discovering,
            MetricsActionView::Discover,
        ),
        (MetricsPhaseView::Connecting, MetricsEvent::ConnectFailed(error)) => (
            MetricsPhaseView::Finished,
            MetricsActionView::Finish(Err(error@)),
        ),
        (MetricsPhaseView::Discovering, MetricsEvent::Discovered(groups)) => if offers_metrics(
            groups@,
        ) {
            (
                MetricsPhaseView::PodMetrics,
                MetricsActionView::ListPodMetrics { scopes: scopes_of(request.namespaces) },
            )
        } else {
            (
                MetricsPhaseView::Finished,
                MetricsActionView::Finish(
                    Ok(
                        no_metrics(
                            request.cluster,
                            ResourceMetricsAvailabilityStatus::Unavailable,
                            "metrics API unavailable"@,
                            seq![],
                        ),
                    ),
                ),
            )
        },
        (MetricsPhaseView::Discovering, MetricsEvent::DiscoveryFailed(error)) => (
            MetricsPhaseView::Finished,
            MetricsActionView::Finish(
                Ok(discovery_failure(request.cluster, client_failure(error))),
            ),
        ),
        (MetricsPhaseView::PodMetrics, MetricsEvent::PodMetrics(answers)) => (
            MetricsPhaseView::NodeMetrics {
                objects: listed(answers@),
                failures: failures_in(answers@),
            },
            MetricsActionView::ListNodeMetrics,
        ),
        (
            MetricsPhaseView::NodeMetrics { objects, failures },
            MetricsEvent::NodeMetrics(answer),
        ) => (
            MetricsPhaseView::Pods {
                objects,
                failures,
                nodes: match answer {
                    Ok(nodes) => Ok(nodes@),
                    Err(error) => Err(list_status(error)),
                },
            },
            MetricsActionView::ListPods { scopes: scopes_of(request.namespaces) },
        ),
        (
            MetricsPhaseView::Pods { objects, failures, nodes },
            MetricsEvent::Pods(answers),
        ) => match first_failure(answers@) {
            None => (
                MetricsPhaseView::ReplicaSets { objects, failures, nodes, owned: listed(answers@) },
                MetricsActionView::ListReplicaSets { scopes: scopes_of(request.namespaces) },
            ),
            Some(error) => (
                MetricsPhaseView::Finished,
                MetricsActionView::Finish(
                    Ok(
                        summary_of(
                            numbers,
                            request.cluster,
                            objects,
                            failures,
                            nodes,
                            WorkloadListsView::PodsFailed { message: error.message@ },
                        ),
                    ),
                ),
            ),
        },
        (
            MetricsPhaseView::ReplicaSets { objects, failures, nodes, owned },
            MetricsEvent::ReplicaSets(answers),
        ) => (
            MetricsPhaseView::Finished,
            MetricsActionView::Finish(
                Ok(
                    summary_of(
                        numbers,
                        request.cluster,
                        objects,
                        failures,
                        nodes,
                        match first_failure(answers@) {
                            None => WorkloadListsView::Listed {
                                pods: owned,
                                replicasets: listed(answers@),
                            },
                            Some(error) => WorkloadListsView::ReplicaSetsFailed {
                                pods: owned,
                                message: error.message@,
                            },
                        },
                    ),
                ),
            ),
        ),
        (phase, _) => (phase, MetricsActionView::Ignore),
    }
}

/// The resource of the metrics of pods.
pub fn pod_metrics_resource() -> (resource: ApiResource)
    ensures
        resource.group@ == "metrics.k8s.io"@,
        resource.version@ == "v1beta1"@,
        resource.api_version@ == "metrics.k8s.io/v1beta1"@,
        resource.kind@ == "PodMetrics"@,
        resource.plural@ == "pods"@,
{
    metrics_api_resource("PodMetrics", "pods")
}

/// The resource of the metrics of nodes.
pub fn node_metrics_resource() -> (resource: ApiResource)
    ensures
        resource.group@ == "metrics.k8s.io"@,
        resource.version@ == "v1beta1"@,
        resource.api_version@ == "metrics.k8s.io/v1beta1"@,
        resource.kind@ == "NodeMetrics"@,
        resource.plural@ == "nodes"@,
{
    metrics_api_resource("NodeMetrics", "nodes")
}

fn check_namespaces(namespaces: &Vec<String>) -> (checked: Result<(), AppError>)
    ensures
        checked is Ok <==> namespaces_are_valid(namespaces@),
        checked matches Err(error) ==> error@ == segment_failure("namespace"@),
{
    let mut i: usize = 0;
    while i < namespaces.len()
        invariant
            i <= namespaces@.len(),
            forall|j: int| 0 <= j < i ==> is_path_segment((#[trigger] namespaces@[j])@),
        decreases namespaces@.len() - i,
    {
        match validate_namespace(Some(namespaces[i].as_str())) {
            Ok(()) => {},
            Err(error) => {
                assert(!is_path_segment(namespaces@[i as int]@));
                return Err(error);
            },
        }
        i = i + 1;
    }
    Ok(())
}

impl MetricsRequest {
    /// A request at its start, and the first call to make.
    pub fn start<F>(cluster_context: String, namespaces: Vec<String>) -> (started: (
        MetricsRequest,
        MetricsAction<F>,
    ))
        ensures
            (started.0@.phase, started.1@) == metrics_start::<F>(namespaces@),
            started.0@.cluster == cluster_context@,
            started.0@.namespaces == namespaces@,
    {
        match check_namespaces(&namespaces) {
            Ok(()) => (
                MetricsRequest { cluster_context, namespaces, phase: MetricsPhase::Connecting },
                MetricsAction::Connect,
            ),
            Err(error) => (
                MetricsRequest { cluster_context, namespaces, phase: MetricsPhase::Finished },
                MetricsAction::Finish(Err(error)),
            ),
        }
    }

    /// Takes how the last call went, and says which call to make next.
    pub fn advance<
        F: Copy,
        R: Fn(&str) -> Option<F>,
        S: Fn(F, Scale) -> F,
        C: Fn(F) -> NumberClass,
        P: Fn(F, F) -> F,
        N: Fn(F) -> u128,
    >(self, numbers: &Numbers<F, R, S, C, P, N>, event: MetricsEvent) -> (next: (
        MetricsRequest,
        MetricsAction<F>,
    ))
        requires
            numbers.inv(),
        ensures
            (next.0@.phase, next.1@) == metrics_step(numbers@, self@, event),
            next.0@.cluster == self@.cluster,
            next.0@.namespaces == self@.namespaces,
    {
        let cluster_context: String = self.cluster_context;
        let namespaces: Vec<String> = self.namespaces;
        let (phase, action): (MetricsPhase, MetricsAction<F>) = match (self.phase, event) {
            (MetricsPhase::Connecting, MetricsEvent::Connected) => (
                MetricsPhase::Discovering,
                MetricsAction::Discover,
            ),
            (MetricsPhase::Connecting, MetricsEvent::ConnectFailed(error)) => (
                MetricsPhase::Finished,
                MetricsAction::Finish(Err(error)),
            ),
            (MetricsPhase::Discovering, MetricsEvent::Discovered(groups)) => {
                if has_metrics_api(groups.as_slice()) {
                    (
                        MetricsPhase::PodMetrics,
                        MetricsAction::ListPodMetrics { scopes: list_scopes(&namespaces) },
                    )
                } else {
                    let none: Vec<String> = Vec::new();
                    assert(text_seq(none@) =~= seq![]);
                    (
                        MetricsPhase::Finished,
                        MetricsAction::Finish(
                            Ok(
                                empty_summary(
                                    cluster_context.clone(),
                                    ResourceMetricsAvailabilityStatus::Unavailable,
                                    "metrics API unavailable",
                                    none,
                                ),
                            ),
                        ),
                    )
                }
            },
            (MetricsPhase::Discovering, MetricsEvent::DiscoveryFailed(error)) => {
                let error: AppError = AppError::from(error);
                (
                    MetricsPhase::Finished,
                    MetricsAction::Finish(
                        Ok(discovery_failure_summary(cluster_context.clone(), &error)),
                    ),
                )
            },
            (MetricsPhase::PodMetrics, MetricsEvent::PodMetrics(answers)) => (
                MetricsPhase::NodeMetrics { pods: collect_metric_objects(answers) },
                MetricsAction::ListNodeMetrics,
            ),
            (MetricsPhase::NodeMetrics { pods }, MetricsEvent::NodeMetrics(answer)) => {
                let nodes: Result<Vec<MetricsObject>, MetricsListStatus> = match answer {
                    Ok(objects) => Ok(objects),
                    Err(error) => Err(classify_metrics_error(&error)),
                };
                (
                    MetricsPhase::Pods { pods, nodes },
                    MetricsAction::ListPods { scopes: list_scopes(&namespaces) },
                )
            },
            (MetricsPhase::Pods { pods, nodes }, MetricsEvent::Pods(answers)) => {
                match collect_owned_objects(answers) {
                    Ok(owned) => (
                        MetricsPhase::ReplicaSets { pods, nodes, owned },
                        MetricsAction::ListReplicaSets { scopes: list_scopes(&namespaces) },
                    ),
                    Err(error) => (
                        MetricsPhase::Finished,
                        MetricsAction::Finish(
                            Ok(
                                summarize(
                                    numbers,
                                    cluster_context.clone(),
                                    pods,
                                    nodes,
                                    WorkloadLists::PodsFailed { message: error.message },
                                ),
                            ),
                        ),
                    ),
                }
            },
            (
                MetricsPhase::ReplicaSets { pods, nodes, owned },
                MetricsEvent::ReplicaSets(answers),
            ) => {
                let lists: WorkloadLists = match collect_owned_objects(answers) {
                    Ok(replicasets) => WorkloadLists::Listed { pods: owned, replicasets },
                    Err(error) => WorkloadLists::ReplicaSetsFailed {
                        pods: owned,
                        message: error.message,
                    },
                };
                (
                    MetricsPhase::Finished,
                    MetricsAction::Finish(
                        Ok(summarize(numbers, cluster_context.clone(), pods, nodes, lists)),
                    ),
                )
            },
            (phase, _) => (phase, MetricsAction::Ignore),
        };
        (MetricsRequest { cluster_context, namespaces, phase }, action)
    }
}

/// A request after `events`.
pub open spec fn metrics_after<F>(
    numbers: NumbersView<F>,
    request: MetricsRequestView,
    events: Seq<MetricsEvent>,
) -> MetricsRequestView
    decreases events.len(),
{
    if events.len() == 0 {
        request
    } else {
        let before = metrics_after(numbers, request, events.drop_last());
        MetricsRequestView { phase: metrics_step(numbers, before, events.last()).0, ..before }
    }
}

proof fn lemma_one_more_event<F>(
    numbers: NumbersView<F>,
    request: MetricsRequestView,
    events: Seq<MetricsEvent>,
    event: MetricsEvent,
)
    ensures
        metrics_after(numbers, request, events.push(event)) == (MetricsRequestView {
            phase: metrics_step(numbers, metrics_after(numbers, request, events), event).0,
            ..metrics_after(numbers, request, events)
        }),
{
    assert(events.push(event).drop_last() =~= events);
}

/// The phases of a request up to the list of pods.
#[verifier::spinoff_prover]
proof fn lemma_listed_metrics<F>(
    numbers: NumbersView<F>,
    request: MetricsRequestView,
    groups: Vec<DiscoveredGroup>,
    pod_metrics: Vec<Result<Vec<MetricsObject>, KubeError>>,
    node_metrics: Vec<MetricsObject>,
)
    requires
        request.phase is Connecting,
        offers_metrics(groups@),
    ensures
        metrics_after(
            numbers,
            request,
            seq![
                MetricsEvent::Connected,
                MetricsEvent::Discovered(groups),
                MetricsEvent::PodMetrics(pod_metrics),
                MetricsEvent::NodeMetrics(Ok(node_metrics)),
            ],
        ) == (MetricsRequestView {
            phase: MetricsPhaseView::Pods {
                objects: listed(pod_metrics@),
                failures: failures_in(pod_metrics@),
                nodes: Ok(node_metrics@),
            },
            ..request
        }),
{
    let e0 = Seq::<MetricsEvent>::empty();
    let e1 = e0.push(MetricsEvent::Connected);
    let e2 = e1.push(MetricsEvent::Discovered(groups));
    let e3 = e2.push(MetricsEvent::PodMetrics(pod_metrics));
    let e4 = e3.push(MetricsEvent::NodeMetrics(Ok(node_metrics)));
    assert(metrics_after(numbers, request, e0) == request);
    lemma_one_more_event(numbers, request, e0, MetricsEvent::Connected);
    lemma_one_more_event(numbers, request, e1, MetricsEvent::Discovered(groups));
    lemma_one_more_event(numbers, request, e2, MetricsEvent::PodMetrics(pod_metrics));
    lemma_one_more_event(numbers, request, e3, MetricsEvent::NodeMetrics(Ok(node_metrics)));
    assert(e4 =~= seq![
        MetricsEvent::Connected,
        MetricsEvent::Discovered(groups),
        MetricsEvent::PodMetrics(pod_metrics),
        MetricsEvent::NodeMetrics(Ok(node_metrics)),
    ]);
}

/// A request whose calls all succeed ends with the summary of what they listed.
#[verifier::spinoff_prover]
pub proof fn a_full_run_gives_the_summary<F>(
    numbers: NumbersView<F>,
    request: MetricsRequestView,
    groups: Vec<DiscoveredGroup>,
    pod_metrics: Vec<Result<Vec<MetricsObject>, KubeError>>,
    node_metrics: Vec<MetricsObject>,
    pods: Vec<Result<Vec<OwnedObject>, KubeError>>,
    replicasets: Vec<Result<Vec<OwnedObject>, KubeError>>,
)
    requires
        request.phase is Connecting,
        offers_metrics(groups@),
        first_failure(pods@) is None,
        first_failure(replicasets@) is None,
    ensures
        ({
            let events = seq![
                MetricsEvent::Connected,
                MetricsEvent::Discovered(groups),
                MetricsEvent::PodMetrics(pod_metrics),
                MetricsEvent::NodeMetrics(Ok(node_metrics)),
                MetricsEvent::Pods(pods),
            ];
            metrics_step(
                numbers,
                metrics_after(numbers, request, events),
                MetricsEvent::ReplicaSets(replicasets),
            ) == (
                MetricsPhaseView::Finished,
                MetricsActionView::Finish(
                    Ok(
                        summary_of(
                            numbers,
                            request.cluster,
                            listed(pod_metrics@),
                            failures_in(pod_metrics@),
                            Ok(node_metrics@),
                            WorkloadListsView::Listed {
                                pods: listed(pods@),
                                replicasets: listed(replicasets@),
                            },
                        ),
                    ),
                ),
            )
        }),
{
    let earlier = seq![
        MetricsEvent::Connected,
        MetricsEvent::Discovered(groups),
        MetricsEvent::PodMetrics(pod_metrics),
        MetricsEvent::NodeMetrics(Ok(node_metrics)),
    ];
    lemma_listed_metrics(numbers, request, groups, pod_metrics, node_metrics);
    lemma_one_more_event(numbers, request, earlier, MetricsEvent::Pods(pods));
    assert(earlier.push(MetricsEvent::Pods(pods)) =~= seq![
        MetricsEvent::Connected,
        MetricsEvent::Discovered(groups),
        MetricsEvent::PodMetrics(pod_metrics),
        MetricsEvent::NodeMetrics(Ok(node_metrics)),
        MetricsEvent::Pods(pods),
    ]);
}

/// Once answered, a request asks for nothing more.
pub proof fn an_answered_request_is_over<F>(
    numbers: NumbersView<F>,
    request: MetricsRequestView,
    event: MetricsEvent,
)
    ensures
        metrics_step(numbers, request, event).1 is Finish ==> metrics_step(
            numbers,
            request,
            event,
        ).0 is Finished,
        request.phase is Finished ==> metrics_step(numbers, request, event) == (
            MetricsPhaseView::Finished,
            MetricsActionView::<F>::Ignore,
        ),
{
}

/// The value of a field of a diagnostic record.
#[derive(Debug)]
pub enum DiagnosticValue {
    Text(String),
    Count(usize),
}

/// A field of a diagnostic record.
#[derive(Debug)]
pub struct DiagnosticField {
    pub name: String,
    pub value: DiagnosticValue,
}

/// What a [`DiagnosticField`] says.
pub enum DiagnosticFieldView {
    Text(Seq<char>, Seq<char>),
    Count(Seq<char>, usize),
}

impl View for DiagnosticField {
    type V = DiagnosticFieldView;

    open spec fn view(&self) -> DiagnosticFieldView {
        match self.value {
            DiagnosticValue::Text(text) => DiagnosticFieldView::Text(self.name@, text@),
            DiagnosticValue::Count(count) => DiagnosticFieldView::Count(self.name@, count),
        }
    }
}

fn count_field(name: &str, count: usize) -> (field: DiagnosticField)
    ensures
        field@ == DiagnosticFieldView::Count(name@, count),
{
    DiagnosticField { name: name.to_owned(), value: DiagnosticValue::Count(count) }
}

/// What the diagnostics record of a summary.
pub fn metrics_diagnostics<F>(summary: &ResourceMetricsSummary<F>, namespace_count: usize) -> (
    fields: Vec<DiagnosticField>)
    ensures
        fields@.map_values(|field: DiagnosticField| field@) == seq![
            DiagnosticFieldView::Text("status"@, summary.availability.status.name()),
            DiagnosticFieldView::Count("namespaces"@, namespace_count),
            DiagnosticFieldView::Count("pods"@, summary.pods@.len() as usize),
            DiagnosticFieldView::Count("nodes"@, summary.nodes@.len() as usize),
            DiagnosticFieldView::Count("workloads"@, summary.workloads@.len() as usize),
        ],
{
    let mut fields: Vec<DiagnosticField> = Vec::new();
    fields.push(
        DiagnosticField {
            name: "status".to_owned(),
            value: DiagnosticValue::Text(summary.availability.status.as_str().to_owned()),
        },
    );
    fields.push(count_field("namespaces", namespace_count));
    fields.push(count_field("pods", summary.pods.len()));
    fields.push(count_field("nodes", summary.nodes.len()));
    fields.push(count_field("workloads", summary.workloads.len()));
    assert(fields@.map_values(|field: DiagnosticField| field@) =~= seq![
        DiagnosticFieldView::Text("status"@, summary.availability.status.name()),
        DiagnosticFieldView::Count("namespaces"@, namespace_count),
        DiagnosticFieldView::Count("pods"@, summary.pods@.len() as usize),
        DiagnosticFieldView::Count("nodes"@, summary.nodes@.len() as usize),
        DiagnosticFieldView::Count("workloads"@, summary.workloads@.len() as usize),
    ]);
    fields
}

/// The log line of a request that begins.
pub fn metrics_start_line(cluster_context: &str, namespace_count: usize) -> (line: String)
    ensures
        line@ == "[kubecove:backend] list_resource_metrics start context="@ + cluster_context@
            + " namespaces="@ + decimal_digits(namespace_count as nat),
{
    "[kubecove:backend] list_resource_metrics start context=".to_owned().concat(
        cluster_context,
    ).concat(" namespaces=").concat(decimal_text(namespace_count as u64).as_str())
}

/// The log line of a request that ended.
pub open spec fn metrics_end<F>(
    cluster: Seq<char>,
    answer: Result<ResourceMetricsView<F>, AppErrorView>,
    ms: nat,
) -> Seq<char> {
    let time = " ms="@ + decimal_digits(ms);
    match answer {
        Ok(summary) => "[kubecove:backend] list_resource_metrics done context="@ + cluster
            + " status="@ + summary.status.name() + " pods="@ + decimal_digits(summary.pods.len())
            + " nodes="@ + decimal_digits(summary.nodes.len()) + " workloads="@ + decimal_digits(
            summary.workloads.len(),
        ) + time,
        Err(error) => if error.kind == AppErrorKind::Cancelled {
            "[kubecove:backend] list_resource_metrics cancelled context="@ + cluster + time
        } else {
            "[kubecove:backend] list_resource_metrics error context="@ + cluster + " kind="@
                + error.kind.name() + " message="@ + error.message + time
        },
    }
}

/// The log line of a request that ended.
pub fn metrics_end_line<F>(
    cluster_context: &str,
    answer: &Result<ResourceMetricsSummary<F>, AppError>,
    ms: u64,
) -> (line: String)
    ensures
        line@ == metrics_end(
            cluster_context@,
            match *answer {
                Ok(summary) => Ok(summary@),
                Err(error) => Err(error@),
            },
            ms as nat,
        ),
{
    let time: String = " ms=".to_owned().concat(decimal_text(ms).as_str());
    match answer {
        Ok(summary) => "[kubecove:backend] list_resource_metrics done context=".to_owned().concat(
            cluster_context,
        ).concat(" status=").concat(summary.availability.status.as_str()).concat(" pods=").concat(
            decimal_text(summary.pods.len() as u64).as_str(),
        ).concat(" nodes=").concat(decimal_text(summary.nodes.len() as u64).as_str()).concat(
            " workloads=",
        ).concat(decimal_text(summary.workloads.len() as u64).as_str()).concat(time.as_str()),
        Err(error) => if error.kind == AppErrorKind::Cancelled {
            "[kubecove:backend] list_resource_metrics cancelled context=".to_owned().concat(
                cluster_context,
            ).concat(time.as_str())
        } else {
            "[kubecove:backend] list_resource_metrics error context=".to_owned().concat(
                cluster_context,
            ).concat(" kind=").concat(error.kind.as_str()).concat(" message=").concat(
                error.message.as_str(),
            ).concat(time.as_str())
        },
    }
}

/// Every node that was listed is reported, in order and once, under its own name and with
/// what its own `usage` says; and a cluster with a node that was listed has metrics.
pub proof fn every_listed_node_is_reported<F>(
    numbers: NumbersView<F>,
    cluster: Seq<char>,
    pod_objects: Seq<MetricsObject>,
    pod_failures: Seq<MetricsListStatus>,
    nodes: Seq<MetricsObject>,
    lists: WorkloadListsView,
)
    ensures
        ({
            let summary = summary_of(numbers, cluster, pod_objects, pod_failures, Ok(nodes), lists);
            &&& summary.nodes.len() == nodes.len()
            &&& forall|i: int|
                0 <= i < nodes.len() ==> {
                    let entry = #[trigger] summary.nodes[i];
                    let object = nodes[i];
                    &&& entry.kind == "Node"@
                    &&& entry.cluster == cluster
                    &&& object.name matches Some(name) ==> entry.name == name@
                    &&& object.name is None ==> entry.name.len() == 0
                    &&& entry.namespace == text_opt(object.namespace)
                    &&& entry.cpu_millicores == (match usage_text(object.data, "cpu"@) {
                        Some(text) => cpu_millicores(numbers, text),
                        None => None,
                    })
                    &&& entry.memory_bytes == (match usage_text(object.data, "memory"@) {
                        Some(text) => memory_bytes(numbers, text),
                        None => None,
                    })
                    &&& entry.sampled_at == (match object.data.member("timestamp"@) {
                        Some(JsonValue::Text(time)) => Some(time@),
                        _ => None,
                    })
                }
            &&& nodes.len() > 0 ==> summary.status is Available && summary.message == Some(
                "metrics available"@,
            )
        }),
{
    let summary = summary_of(numbers, cluster, pod_objects, pod_failures, Ok(nodes), lists);
    reveal_strlit("Node");
    reveal_strlit("Pod");
    assert("Node"@.len() == 4 && "Pod"@.len() == 3);
    assert forall|i: int| 0 <= i < nodes.len() implies #[trigger] summary.nodes[i] == metric_of(
        numbers,
        cluster,
        "Node"@,
        nodes[i],
    ) by {}
    assert forall|i: int| 0 <= i < nodes.len() implies {
        let entry = #[trigger] summary.nodes[i];
        let object = nodes[i];
        &&& entry.kind == "Node"@
        &&& entry.cluster == cluster
        &&& object.name matches Some(name) ==> entry.name == name@
        &&& object.name is None ==> entry.name.len() == 0
        &&& entry.namespace == text_opt(object.namespace)
    } by {
        a_sample_tells_of_its_object(numbers, cluster, "Node"@, nodes[i]);
    }
    assert forall|i: int| 0 <= i < nodes.len() implies {
        let entry = #[trigger] summary.nodes[i];
        let object = nodes[i];
        &&& entry.cpu_millicores == (match usage_text(object.data, "cpu"@) {
            Some(text) => cpu_millicores(numbers, text),
            None => None,
        })
        &&& entry.memory_bytes == (match usage_text(object.data, "memory"@) {
            Some(text) => memory_bytes(numbers, text),
            None => None,
        })
    } by {
        a_node_uses_what_it_says(numbers, cluster, "Node"@, nodes[i]);
    }
}

/// Every pod that was listed is reported, in order and once, as the sample of its own
/// object, whatever became of the other lists; and a cluster with a pod that was listed
/// has metrics.
pub proof fn every_listed_pod_is_reported<F>(
    numbers: NumbersView<F>,
    cluster: Seq<char>,
    pod_objects: Seq<MetricsObject>,
    pod_failures: Seq<MetricsListStatus>,
    nodes: Result<Seq<MetricsObject>, MetricsListStatus>,
    lists: WorkloadListsView,
)
    ensures
        ({
            let summary = summary_of(numbers, cluster, pod_objects, pod_failures, nodes, lists);
            &&& summary.cluster == cluster
            &&& summary.pods.len() == pod_objects.len()
            &&& forall|i: int|
                0 <= i < pod_objects.len() ==> #[trigger] summary.pods[i] == metric_of(
                    numbers,
                    cluster,
                    "Pod"@,
                    pod_objects[i],
                )
            &&& forall|i: int|
                0 <= i < pod_objects.len() ==> (pod_objects[i].name matches Some(name) ==> (
                #[trigger] summary.pods[i]).name == name@)
            &&& nodes is Err ==> summary.nodes.len() == 0
            &&& pod_objects.len() > 0 ==> summary.status is Available
        }),
{
}

/// How available metrics are follows from what was listed: they are available where any
/// pod or node was, whatever failed beside; otherwise a refusal of any list counts before
/// any other failure, and where nothing failed there are only no samples yet. The words
/// say the same.
pub proof fn the_status_follows_from_what_was_listed<F>(
    numbers: NumbersView<F>,
    cluster: Seq<char>,
    pod_objects: Seq<MetricsObject>,
    pod_failures: Seq<MetricsListStatus>,
    nodes: Result<Seq<MetricsObject>, MetricsListStatus>,
    lists: WorkloadListsView,
)
    ensures
        ({
            let summary = summary_of(numbers, cluster, pod_objects, pod_failures, nodes, lists);
            let listed = pod_objects.len() > 0 || (nodes matches Ok(objects) && objects.len() > 0);
            let refused = pod_failures.contains(MetricsListStatus::Forbidden) || (
            nodes matches Err(status) && status is Forbidden);
            let failed = pod_failures.len() > 0 || nodes is Err;
            &&& listed <==> summary.status is Available
            &&& !listed && refused <==> summary.status is Forbidden
            &&& !listed && !refused && failed <==> summary.status is Unavailable
            &&& !listed && !failed <==> summary.status is NoSamples
            &&& summary.status is Available ==> summary.message == Some("metrics available"@)
            &&& summary.status is Forbidden ==> summary.message == Some("forbidden"@)
            &&& summary.status is Unavailable ==> summary.message == Some(
                "metrics API unavailable"@,
            )
            &&& summary.status is NoSamples ==> summary.message == Some("no samples yet"@)
        }),
{
    if pod_failures.len() > 0 {
        assert(pod_failures.contains(pod_failures[0]));
    }
    if pod_failures.contains(MetricsListStatus::Forbidden) {
        let i = pod_failures.index_of(MetricsListStatus::Forbidden);
        assert(pod_failures.len() > 0);
    }
    if pod_failures.contains(MetricsListStatus::Unavailable) {
        let i = pod_failures.index_of(MetricsListStatus::Unavailable);
        assert(pod_failures.len() > 0);
    }
}

/// Each kind of failure is warned of once, however often it came: those of pods before
/// those of nodes, and those of workloads last and with their reason.
pub proof fn every_failure_is_warned_of<F>(
    numbers: NumbersView<F>,
    cluster: Seq<char>,
    pod_objects: Seq<MetricsObject>,
    pod_failures: Seq<MetricsListStatus>,
    nodes: Result<Seq<MetricsObject>, MetricsListStatus>,
    lists: WorkloadListsView,
)
    ensures
        ({
            let warnings = summary_of(
                numbers,
                cluster,
                pod_objects,
                pod_failures,
                nodes,
                lists,
            ).warnings;
            let refused: int = if pod_failures.contains(MetricsListStatus::Forbidden) {
                1
            } else {
                0
            };
            let failed: int = if pod_failures.contains(MetricsListStatus::Unavailable) {
                1
            } else {
                0
            };
            let of_nodes: int = if nodes is Err {
                1
            } else {
                0
            };
            let of_workloads: int = if lists is Listed {
                0
            } else {
                1
            };
            &&& warnings.len() == refused + failed + of_nodes + of_workloads
            &&& refused == 1 ==> warnings[0] == "Pod metrics forbidden"@
            &&& failed == 1 ==> warnings[refused] == "Pod metrics unavailable"@
            &&& nodes matches Err(status) ==> warnings[refused + failed] == (if status is Forbidden {
                "Node metrics forbidden"@
            } else {
                "Node metrics unavailable"@
            })
            &&& lists matches WorkloadListsView::PodsFailed { message } ==> warnings.last()
                == "Workload metrics unavailable: "@ + message
            &&& lists matches WorkloadListsView::ReplicaSetsFailed { message, .. }
                ==> warnings.last() == "Workload owner rollup unavailable: "@ + message
        }),
{
}

/// Workloads are made of the pods that were listed and of the samples that are reported:
/// without the replica sets they are what they would be if there were none, and without
/// the pods there are no workloads. How the nodes were listed has no part in it.
pub proof fn workloads_follow_from_what_was_listed<F>(
    numbers: NumbersView<F>,
    cluster: Seq<char>,
    pod_objects: Seq<MetricsObject>,
    pod_failures: Seq<MetricsListStatus>,
    nodes: Result<Seq<MetricsObject>, MetricsListStatus>,
    pods: Seq<OwnedObject>,
    replicasets: Seq<OwnedObject>,
    message: Seq<char>,
)
    ensures
        ({
            let listed = summary_of(
                numbers,
                cluster,
                pod_objects,
                pod_failures,
                nodes,
                WorkloadListsView::Listed { pods, replicasets },
            );
            let without_sets = summary_of(
                numbers,
                cluster,
                pod_objects,
                pod_failures,
                nodes,
                WorkloadListsView::ReplicaSetsFailed { pods, message },
            );
            let without_pods = summary_of(
                numbers,
                cluster,
                pod_objects,
                pod_failures,
                nodes,
                WorkloadListsView::PodsFailed { message },
            );
            &&& listed.workloads == workload_metrics(
                numbers,
                cluster,
                pods,
                replicasets,
                listed.pods,
            )
            &&& without_sets.workloads == workload_metrics(
                numbers,
                cluster,
                pods,
                Seq::<OwnedObject>::empty(),
                without_sets.pods,
            )
            &&& without_pods.workloads.len() == 0
        }),
{
}

/// A cluster whose discovery failed has no metrics to report: it is forbidden exactly
/// where the failure was a refusal and unavailable otherwise, and the one warning gives
/// the reason.
pub proof fn a_failed_discovery_is_reported<F>(cluster: Seq<char>, error: AppErrorView)
    ensures
        ({
            let summary = discovery_failure::<F>(cluster, error);
            let refused = error.kind == AppErrorKind::Forbidden;
            &&& summary.cluster == cluster
            &&& refused <==> summary.status is Forbidden
            &&& !refused <==> summary.status is Unavailable
            &&& refused ==> summary.message == Some("metrics API forbidden"@)
            &&& !refused ==> summary.message == Some("metrics API unavailable"@)
            &&& summary.pods.len() == 0
            &&& summary.nodes.len() == 0
            &&& summary.workloads.len() == 0
            &&& summary.warnings.len() == 1
            &&& summary.warnings[0] == "Metrics discovery unavailable: "@ + error.message
        }),
{
}

/// A request begins with a connection, unless one of its namespaces cannot go into a
/// request path; it is refused then, and no call is made.
pub proof fn a_request_with_a_bad_namespace_makes_no_call<F>(namespaces: Seq<String>)
    ensures
        (forall|i: int| 0 <= i < namespaces.len() ==> is_path_segment((#[trigger] namespaces[i])@))
            ==> metrics_start::<F>(namespaces) == (
            MetricsPhaseView::Connecting,
            MetricsActionView::<F>::Connect,
        ),
        (exists|i: int| 0 <= i < namespaces.len() && !is_path_segment((#[trigger] namespaces[i])@))
            ==> metrics_start::<F>(namespaces).0 is Finished && (metrics_start::<F>(
            namespaces,
        ).1 matches MetricsActionView::Finish(Err(error)) && error.kind == AppErrorKind::Validation
            && error.message == "namespace must be a valid Kubernetes path segment"@),
{
    let message = "namespace"@ + " must be a valid Kubernetes path segment"@;
    reveal_strlit("namespace");
    reveal_strlit(" must be a valid Kubernetes path segment");
    reveal_strlit("namespace must be a valid Kubernetes path segment");
    assert(message =~= "namespace must be a valid Kubernetes path segment"@);
}

/// A request that is connected discovers the groups of the cluster, and lists the metrics
/// of pods only where metrics are offered; otherwise it is answered at once. One that
/// cannot connect fails with the reason.
pub proof fn metrics_are_discovered_before_they_are_listed<F>(
    numbers: NumbersView<F>,
    request: MetricsRequestView,
    error: AppError,
    failed: KubeError,
    groups: Vec<DiscoveredGroup>,
)
    requires
        request.phase is Connecting,
    ensures
        ({
            let discovering = MetricsRequestView {
                phase: MetricsPhaseView::Discovering,
                ..request
            };
            let found = metrics_step(numbers, discovering, MetricsEvent::Discovered(groups));
            &&& metrics_step(numbers, request, MetricsEvent::Connected) == (
                MetricsPhaseView::Discovering,
                MetricsActionView::<F>::Discover,
            )
            &&& metrics_step(numbers, request, MetricsEvent::ConnectFailed(error)) == (
                MetricsPhaseView::Finished,
                MetricsActionView::<F>::Finish(Err(error@)),
            )
            &&& metrics_step(numbers, discovering, MetricsEvent::DiscoveryFailed(failed)) == (
                MetricsPhaseView::Finished,
                MetricsActionView::<F>::Finish(
                    Ok(discovery_failure(request.cluster, client_failure(failed))),
                ),
            )
            &&& offers_metrics(groups@) ==> found == (
                MetricsPhaseView::PodMetrics,
                MetricsActionView::<F>::ListPodMetrics { scopes: scopes_of(request.namespaces) },
            )
            &&& !offers_metrics(groups@) ==> found.0 is Finished && (
            found.1 matches MetricsActionView::Finish(Ok(summary)) && summary.cluster
                == request.cluster && summary.status is Unavailable && summary.message == Some(
                "metrics API unavailable"@,
            ) && summary.pods.len() == 0 && summary.nodes.len() == 0 && summary.workloads.len() == 0
                && summary.warnings.len() == 0)
        }),
{
}

/// Whatever the lists come to, a request goes on to its summary: the metrics of pods are
/// those of all answers that succeeded, those of nodes are listed or classified, a failure
/// to list pods leaves the replica sets unasked, and each list is asked for in the same
/// scopes.
pub proof fn lists_that_fail_do_not_end_a_request<F>(
    numbers: NumbersView<F>,
    request: MetricsRequestView,
    pod_metrics: Vec<Result<Vec<MetricsObject>, KubeError>>,
    node_answer: Result<Vec<MetricsObject>, KubeError>,
    pods: Vec<Result<Vec<OwnedObject>, KubeError>>,
    replicasets: Vec<Result<Vec<OwnedObject>, KubeError>>,
)
    requires
        request.phase is PodMetrics,
    ensures
        ({
            let (second, ask_nodes) = metrics_step(
                numbers,
                request,
                MetricsEvent::PodMetrics(pod_metrics),
            );
            let (third, ask_pods) = metrics_step(
                numbers,
                MetricsRequestView { phase: second, ..request },
                MetricsEvent::NodeMetrics(node_answer),
            );
            let (fourth, ask_sets) = metrics_step(
                numbers,
                MetricsRequestView { phase: third, ..request },
                MetricsEvent::Pods(pods),
            );
            let last = metrics_step(
                numbers,
                MetricsRequestView { phase: fourth, ..request },
                MetricsEvent::ReplicaSets(replicasets),
            ).1;
            let nodes = match node_answer {
                Ok(objects) => Ok(objects@),
                Err(error) => Err(
                    if client_error_kind(error) == AppErrorKind::Forbidden {
                        MetricsListStatus::Forbidden
                    } else {
                        MetricsListStatus::Unavailable
                    },
                ),
            };
            let answered = |lists: WorkloadListsView|
                MetricsActionView::<F>::Finish(
                    Ok(
                        summary_of(
                            numbers,
                            request.cluster,
                            listed(pod_metrics@),
                            failures_in(pod_metrics@),
                            nodes,
                            lists,
                        ),
                    ),
                );
            &&& ask_nodes is ListNodeMetrics
            &&& ask_pods == MetricsActionView::<F>::ListPods {
                scopes: scopes_of(request.namespaces),
            }
            &&& match first_failure(pods@) {
                Some(error) => ask_sets == answered(
                    WorkloadListsView::PodsFailed { message: error.message@ },
                ) && fourth is Finished,
                None => ask_sets == MetricsActionView::<F>::ListReplicaSets {
                    scopes: scopes_of(request.namespaces),
                } && last == answered(
                    match first_failure(replicasets@) {
                        Some(error) => WorkloadListsView::ReplicaSetsFailed {
                            pods: listed(pods@),
                            message: error.message@,
                        },
                        None => WorkloadListsView::Listed {
                            pods: listed(pods@),
                            replicasets: listed(replicasets@),
                        },
                    },
                ),
            }
        }),
{
}

/// The line of a request that ended tells the cluster and how long it took, and of an
/// answer its status and how much it reports, of a failure its kind and its text; a
/// cancelled request is no failure.
pub proof fn the_end_of_a_request_is_told<F>(
    cluster: Seq<char>,
    summary: ResourceMetricsView<F>,
    error: AppErrorView,
    ms: nat,
)
    ensures
        ({
            let head = "[kubecove:backend] list_resource_metrics "@;
            let time = " ms="@ + decimal_digits(ms);
            let done = metrics_end::<F>(cluster, Ok(summary), ms);
            let ended = metrics_end::<F>(cluster, Err(error), ms);
            &&& done == head + "done context="@ + cluster + " status="@ + summary.status.name()
                + " pods="@ + decimal_digits(summary.pods.len()) + " nodes="@ + decimal_digits(
                summary.nodes.len(),
            ) + " workloads="@ + decimal_digits(summary.workloads.len()) + time
            &&& error.kind == AppErrorKind::Cancelled ==> ended == head + "cancelled context="@
                + cluster + time
            &&& error.kind != AppErrorKind::Cancelled ==> ended == head + "error context="@
                + cluster + " kind="@ + error.kind.name() + " message="@ + error.message + time
        }),
{
    let head = "[kubecove:backend] list_resource_metrics "@;
    reveal_strlit("[kubecove:backend] list_resource_metrics ");
    reveal_strlit("done context=");
    reveal_strlit("cancelled context=");
    reveal_strlit("error context=");
    reveal_strlit("[kubecove:backend] list_resource_metrics done context=");
    reveal_strlit("[kubecove:backend] list_resource_metrics cancelled context=");
    reveal_strlit("[kubecove:backend] list_resource_metrics error context=");
    assert(head + "done context="@
        =~= "[kubecove:backend] list_resource_metrics done context="@);
    assert(head + "cancelled context="@
        =~= "[kubecove:backend] list_resource_metrics cancelled context="@);
    assert(head + "error context="@
        =~= "[kubecove:backend] list_resource_metrics error context="@);
}

/// Each status goes by its own name, in the diagnostics and in the log.
pub proof fn a_status_goes_by_its_name(status: ResourceMetricsAvailabilityStatus)
    ensures
        status.name() == "Available"@ <==> status is Available,
        status.name() == "Unavailable"@ <==> status is Unavailable,
        status.name() == "Forbidden"@ <==> status is Forbidden,
        status.name() == "NoSamples"@ <==> status is NoSamples,
{
    reveal_strlit("Available");
    reveal_strlit("Unavailable");
    reveal_strlit("Forbidden");
    reveal_strlit("NoSamples");
    assert("Available"@[0] == 'A' && "Unavailable"@[0] == 'U');
    assert("Forbidden"@[0] == 'F' && "NoSamples"@[0] == 'N');
}

} // verus!
