//! The metrics of workloads: what the pods that belong to each of them use together.

use crate::lists::{present, present_of_one_more, present_values_are_there};
use crate::metrics::{
    add_bytes, add_number, bytes_add_up, numbers_add_up, sum_of, tally_byte_count, tally_bytes,
    tally_number, tally_numbers, tally_total, ResourceMetricSummary, ResourceMetricView, Tally,
};
use crate::quantity::{NumberClass, Numbers, NumbersView, Scale};
use crate::text::{
    text_before, text_before_is_a_strict_total_order, text_eq, text_is_before, text_opt,
    text_opt_is, text_seq,
};
use vstd::prelude::*;
use vstd::string::*;

verus! {

/// A reference to the owner of an object.
#[derive(Debug)]
pub struct OwnerReference {
    pub kind: String,
    pub name: String,
    pub controller: Option<bool>,
}

/// A pod or a replica set, by what tells whose it is.
#[derive(Debug)]
pub struct OwnedObject {
    pub name: Option<String>,
    pub namespace: Option<String>,
    pub owner_references: Option<Vec<OwnerReference>>,
}

/// The name of a workload.
#[derive(Debug)]
pub struct WorkloadKey {
    pub kind: String,
    pub namespace: String,
    pub name: String,
}

/// What a [`WorkloadKey`] says.
#[verifier::ext_equal]
pub struct WorkloadKeyView {
    pub kind: Seq<char>,
    pub namespace: Seq<char>,
    pub name: Seq<char>,
}

impl View for WorkloadKey {
    type V = WorkloadKeyView;

    open spec fn view(&self) -> WorkloadKeyView {
        WorkloadKeyView { kind: self.kind@, namespace: self.namespace@, name: self.name@ }
    }
}

/// The order of workloads: by kind, then by namespace, then by name.
pub open spec fn key_before(a: WorkloadKeyView, b: WorkloadKeyView) -> bool {
    ||| text_before(a.kind, b.kind)
    ||| a.kind == b.kind && text_before(a.namespace, b.namespace)
    ||| a.kind == b.kind && a.namespace == b.namespace && text_before(a.name, b.name)
}

/// The order of workloads is a strict total order.
pub proof fn key_before_is_a_strict_total_order(
    a: WorkloadKeyView,
    b: WorkloadKeyView,
    c: WorkloadKeyView,
)
    ensures
        !key_before(a, a),
        key_before(a, b) && key_before(b, c) ==> key_before(a, c),
        a == b || key_before(a, b) || key_before(b, a),
{
    text_before_is_a_strict_total_order(a.kind, b.kind, c.kind);
    text_before_is_a_strict_total_order(a.namespace, b.namespace, c.namespace);
    text_before_is_a_strict_total_order(a.name, b.name, c.name);
}

fn key_is_before(a: &WorkloadKey, b: &WorkloadKey) -> (before: bool)
    ensures
        before == key_before(a@, b@),
{
    proof {
        text_before_is_a_strict_total_order(a.kind@, b.kind@, a.kind@);
        text_before_is_a_strict_total_order(a.namespace@, b.namespace@, a.namespace@);
    }
    if !text_eq(a.kind.as_str(), b.kind.as_str()) {
        text_is_before(a.kind.as_str(), b.kind.as_str())
    } else if !text_eq(a.namespace.as_str(), b.namespace.as_str()) {
        text_is_before(a.namespace.as_str(), b.namespace.as_str())
    } else {
        text_is_before(a.name.as_str(), b.name.as_str())
    }
}

fn key_eq(a: &WorkloadKey, b: &WorkloadKey) -> (same: bool)
    ensures
        same == (a@ == b@),
{
    let same: bool = text_eq(a.kind.as_str(), b.kind.as_str()) && text_eq(
        a.namespace.as_str(),
        b.namespace.as_str(),
    ) && text_eq(a.name.as_str(), b.name.as_str());
    assert(same == (a@ =~= b@));
    same
}

/// The first reference that says it is the controller.
pub open spec fn first_controller(owners: Seq<OwnerReference>) -> Option<OwnerReference>
    decreases owners.len(),
{
    if owners.len() == 0 {
        None
    } else if owners[0].controller == Some(true) {
        Some(owners[0])
    } else {
        first_controller(owners.drop_first())
    }
}

/// The owner of an object: its controller, or the first owner where none controls it.
pub open spec fn owner_among(owners: Seq<OwnerReference>) -> Option<OwnerReference> {
    if first_controller(owners) is Some {
        first_controller(owners)
    } else if owners.len() > 0 {
        Some(owners[0])
    } else {
        None
    }
}

/// The owner of an object: its controller, or the first owner where none controls it.
pub fn controller_owner(owners: &[OwnerReference]) -> (owner: Option<&OwnerReference>)
    ensures
        owner_among(owners@) == (match owner {
            Some(found) => Some(*found),
            None => None,
        }),
{
    let mut i: usize = 0;
    assert(owners@.skip(0) =~= owners@);
    while i < owners.len()
        invariant
            i <= owners@.len(),
            first_controller(owners@) == first_controller(owners@.skip(i as int)),
        decreases owners@.len() - i,
    {
        assert(owners@.skip(i as int).drop_first() =~= owners@.skip(i + 1));
        if matches!(owners[i].controller, Some(true)) {
            return Some(&owners[i]);
        }
        i = i + 1;
    }
    if owners.len() > 0 {
        Some(&owners[0])
    } else {
        None
    }
}

/// The owner that an object names, if any.
pub open spec fn owner_of(object: OwnedObject) -> Option<OwnerReference> {
    match object.owner_references {
        Some(owners) => owner_among(owners@),
        None => None,
    }
}

fn owner_named_by(object: &OwnedObject) -> (owner: Option<&OwnerReference>)
    ensures
        owner_of(*object) == (match owner {
            Some(found) => Some(*found),
            None => None,
        }),
{
    match &object.owner_references {
        Some(owners) => controller_owner(owners.as_slice()),
        None => None,
    }
}

/// The sample of a pod: the last one with its namespace and name.
pub open spec fn sample_of<F>(
    metrics: Seq<ResourceMetricView<F>>,
    namespace: Seq<char>,
    name: Seq<char>,
) -> Option<ResourceMetricView<F>>
    decreases metrics.len(),
{
    if metrics.len() == 0 {
        None
    } else if metrics.last().namespace == Some(namespace) && metrics.last().name == name {
        Some(metrics.last())
    } else {
        sample_of(metrics.drop_last(), namespace, name)
    }
}

fn find_sample<'a, F>(
    metrics: &'a [ResourceMetricSummary<F>],
    namespace: &str,
    name: &str,
) -> (sample: Option<&'a ResourceMetricSummary<F>>)
    ensures
        sample_of(metric_views(metrics@), namespace@, name@) == (match sample {
            Some(found) => Some(found@),
            None => None,
        }),
{
    let ghost views = metric_views(metrics@);
    let mut i: usize = metrics.len();
    assert(views.take(i as int) =~= views);
    while i > 0
        invariant
            i <= metrics@.len(),
            views == metric_views(metrics@),
            sample_of(views, namespace@, name@) == sample_of(
                views.take(i as int),
                namespace@,
                name@,
            ),
        decreases i,
    {
        i = i - 1;
        assert(views.take(i + 1).drop_last() =~= views.take(i as int));
        assert(views[i as int] == metrics@[i as int]@);
        let metric: &ResourceMetricSummary<F> = &metrics[i];
        if text_opt_is(&metric.namespace, namespace) && text_eq(metric.name.as_str(), name) {
            return Some(metric);
        }
    }
    None
}

/// What an owner stands for in the namespace of what it owns.
pub open spec fn owner_key(owner: OwnerReference, namespace: Seq<char>) -> WorkloadKeyView {
    WorkloadKeyView { kind: owner.kind@, namespace, name: owner.name@ }
}

/// Whether a replica set goes by `key` and names an owner.
pub open spec fn is_owned_set(set: OwnedObject, key: WorkloadKeyView) -> bool {
    &&& key.kind == "ReplicaSet"@
    &&& text_opt(set.namespace) == Some(key.namespace)
    &&& text_opt(set.name) == Some(key.name)
    &&& owner_of(set) is Some
}

/// The workload that the replica set `key` belongs to: the owner of the last one of
/// that name.
pub open spec fn parent_of(replicasets: Seq<OwnedObject>, key: WorkloadKeyView) -> Option<
    WorkloadKeyView,
>
    decreases replicasets.len(),
{
    if replicasets.len() == 0 {
        None
    } else if is_owned_set(replicasets.last(), key) {
        Some(owner_key(owner_of(replicasets.last())->0, key.namespace))
    } else {
        parent_of(replicasets.drop_last(), key)
    }
}

fn find_parent(replicasets: &[OwnedObject], key: &WorkloadKey) -> (parent: Option<WorkloadKey>)
    ensures
        parent_of(replicasets@, key@) == (match parent {
            Some(found) => Some(found@),
            None => None,
        }),
{
    let set: bool = text_eq(key.kind.as_str(), "ReplicaSet");
    let mut i: usize = replicasets.len();
    assert(replicasets@.take(i as int) =~= replicasets@);
    while i > 0
        invariant
            set == (key@.kind == "ReplicaSet"@),
            i <= replicasets@.len(),
            parent_of(replicasets@, key@) == parent_of(replicasets@.take(i as int), key@),
        decreases i,
    {
        i = i - 1;
        assert(replicasets@.take(i + 1).drop_last() =~= replicasets@.take(i as int));
        let replicaset: &OwnedObject = &replicasets[i];
        if set && text_opt_is(&replicaset.namespace, key.namespace.as_str()) && text_opt_is(
            &replicaset.name,
            key.name.as_str(),
        ) {
            if let Some(owner) = owner_named_by(replicaset) {
                return Some(
                    WorkloadKey {
                        kind: owner.kind.clone(),
                        namespace: key.namespace.clone(),
                        name: owner.name.clone(),
                    },
                );
            }
        }
    }
    None
}

/// A sample of a pod that counts for a workload.
pub struct Contribution<F> {
    pub key: WorkloadKeyView,
    pub pod: Seq<char>,
    pub metric: ResourceMetricView<F>,
}

/// The text, or the empty text where there is none.
pub open spec fn text_or_empty(value: Option<String>) -> Seq<char> {
    match value {
        Some(text) => text@,
        None => seq![],
    }
}

fn clone_or_empty(value: &Option<String>) -> (text: String)
    ensures
        text@ == text_or_empty(*value),
{
    match value {
        Some(text) => text.clone(),
        None => String::new(),
    }
}

/// What a pod counts for: its owner, and the workload that its owner belongs to where
/// that is a replica set. A pod without a sample or an owner counts for nothing.
pub open spec fn pod_contributions<F>(
    pod: OwnedObject,
    replicasets: Seq<OwnedObject>,
    metrics: Seq<ResourceMetricView<F>>,
) -> Seq<Contribution<F>> {
    let namespace = text_or_empty(pod.namespace);
    let name = text_or_empty(pod.name);
    match (sample_of(metrics, namespace, name), owner_of(pod)) {
        (Some(sample), Some(owner)) => {
            let key = owner_key(owner, namespace);
            let own = Contribution { key, pod: name, metric: sample };
            match parent_of(replicasets, key) {
                Some(parent) => seq![own, Contribution { key: parent, pod: name, metric: sample }],
                None => seq![own],
            }
        },
        _ => seq![],
    }
}

/// What all pods count for, in order.
pub open spec fn contributions<F>(
    pods: Seq<OwnedObject>,
    replicasets: Seq<OwnedObject>,
    metrics: Seq<ResourceMetricView<F>>,
) -> Seq<Contribution<F>>
    decreases pods.len(),
{
    if pods.len() == 0 {
        seq![]
    } else {
        contributions(pods.drop_last(), replicasets, metrics) + pod_contributions(
            pods.last(),
            replicasets,
            metrics,
        )
    }
}

/// `keys`, in order, with `key` among them.
pub open spec fn with_key(keys: Seq<WorkloadKeyView>, key: WorkloadKeyView) -> Seq<WorkloadKeyView>
    decreases keys.len(),
{
    if keys.len() == 0 {
        seq![key]
    } else if keys[0] == key {
        keys
    } else if key_before(keys[0], key) {
        seq![keys[0]] + with_key(keys.drop_first(), key)
    } else {
        seq![key] + keys
    }
}

/// The workloads that anything counts for, in order, each once.
pub open spec fn workloads_of<F>(counted: Seq<Contribution<F>>) -> Seq<WorkloadKeyView>
    decreases counted.len(),
{
    if counted.len() == 0 {
        seq![]
    } else {
        with_key(workloads_of(counted.drop_last()), counted.last().key)
    }
}

/// What counts for the workload `key`, in order.
pub open spec fn counted_for<F>(counted: Seq<Contribution<F>>, key: WorkloadKeyView) -> Seq<
    Contribution<F>,
> {
    counted.filter(|one: Contribution<F>| one.key == key)
}

/// The later of two times; any time is later than none.
pub open spec fn later(a: Option<Seq<char>>, b: Option<Seq<char>>) -> Option<Seq<char>> {
    match (a, b) {
        (None, _) => b,
        (_, None) => a,
        (Some(x), Some(y)) => if text_before(x, y) {
            b
        } else {
            a
        },
    }
}

/// The latest of `times`.
pub open spec fn latest(times: Seq<Option<Seq<char>>>) -> Option<Seq<char>>
    decreases times.len(),
{
    if times.len() == 0 {
        None
    } else {
        later(latest(times.drop_last()), times.last())
    }
}

/// What the pods of a workload use together.
#[verifier::ext_equal]
pub struct WorkloadMetricView<F> {
    pub key: WorkloadKeyView,
    pub cpu: Tally<F>,
    pub memory: Tally<i64>,
    pub sampled_at: Option<Seq<char>>,
    pub pods: Seq<Seq<char>>,
}

/// What those that count for a workload use together: the sums of what they tell, the
/// time of the latest sample, and their names in order.
pub open spec fn rollup<F>(
    numbers: NumbersView<F>,
    key: WorkloadKeyView,
    own: Seq<Contribution<F>>,
) -> WorkloadMetricView<F> {
    WorkloadMetricView {
        key,
        cpu: tally_numbers(
            numbers,
            present(own.map_values(|one: Contribution<F>| one.metric.cpu_millicores)),
        ),
        memory: tally_bytes(
            present(own.map_values(|one: Contribution<F>| one.metric.memory_bytes)),
        ),
        sampled_at: latest(own.map_values(|one: Contribution<F>| one.metric.sampled_at)),
        pods: own.map_values(|one: Contribution<F>| one.pod),
    }
}

/// What each workload uses, in the order of the workloads.
pub open spec fn rollups<F>(numbers: NumbersView<F>, counted: Seq<Contribution<F>>) -> Seq<
    WorkloadMetricView<F>,
> {
    workloads_of(counted).map_values(
        |key: WorkloadKeyView| rollup(numbers, key, counted_for(counted, key)),
    )
}

/// The metrics of a workload as they are reported: a sum that could not be held is left
/// out.
pub open spec fn reported<F>(
    cluster: Seq<char>,
    workload: WorkloadMetricView<F>,
) -> ResourceMetricView<F> {
    ResourceMetricView {
        kind: workload.key.kind,
        cluster,
        name: workload.key.name,
        namespace: Some(workload.key.namespace),
        cpu_millicores: workload.cpu.total(),
        memory_bytes: workload.memory.total(),
        sampled_at: workload.sampled_at,
        source_pods: workload.pods,
    }
}

/// The metrics of all workloads.
pub open spec fn workload_metrics<F>(
    numbers: NumbersView<F>,
    cluster: Seq<char>,
    pods: Seq<OwnedObject>,
    replicasets: Seq<OwnedObject>,
    metrics: Seq<ResourceMetricView<F>>,
) -> Seq<ResourceMetricView<F>> {
    rollups(numbers, contributions(pods, replicasets, metrics)).map_values(
        |workload: WorkloadMetricView<F>| reported(cluster, workload),
    )
}

/// What the pods of a workload use together, while it is added up.
#[derive(Debug)]
pub struct WorkloadMetric<F> {
    pub key: WorkloadKey,
    pub cpu: Tally<F>,
    pub memory: Tally<i64>,
    pub sampled_at: Option<String>,
    pub pods: Vec<String>,
}

impl<F> View for WorkloadMetric<F> {
    type V = WorkloadMetricView<F>;

    open spec fn view(&self) -> WorkloadMetricView<F> {
        WorkloadMetricView {
            key: self.key@,
            cpu: self.cpu,
            memory: self.memory,
            sampled_at: text_opt(self.sampled_at),
            pods: text_seq(self.pods@),
        }
    }
}

/// What each of `workloads` says.
pub open spec fn workload_views<F>(workloads: Seq<WorkloadMetric<F>>) -> Seq<
    WorkloadMetricView<F>,
> {
    workloads.map_values(|workload: WorkloadMetric<F>| workload@)
}

/// What each of `metrics` says.
pub open spec fn metric_views<F>(metrics: Seq<ResourceMetricSummary<F>>) -> Seq<
    ResourceMetricView<F>,
> {
    metrics.map_values(|metric: ResourceMetricSummary<F>| metric@)
}

/// A workload with one more sample.
pub open spec fn with_sample<F>(
    numbers: NumbersView<F>,
    workload: WorkloadMetricView<F>,
    one: Contribution<F>,
) -> WorkloadMetricView<F> {
    WorkloadMetricView {
        key: workload.key,
        cpu: match one.metric.cpu_millicores {
            Some(value) => add_number(numbers, workload.cpu, value),
            None => workload.cpu,
        },
        memory: match one.metric.memory_bytes {
            Some(value) => add_bytes(workload.memory, value),
            None => workload.memory,
        },
        sampled_at: later(workload.sampled_at, one.metric.sampled_at),
        pods: workload.pods.push(one.pod),
    }
}

/// A workload without samples.
pub open spec fn without_samples<F>(key: WorkloadKeyView) -> WorkloadMetricView<F> {
    WorkloadMetricView {
        key,
        cpu: Tally::Empty,
        memory: Tally::Empty,
        sampled_at: None,
        pods: seq![],
    }
}

/// `workloads`, in order, with one more sample for one of them.
pub open spec fn with_contribution<F>(
    numbers: NumbersView<F>,
    workloads: Seq<WorkloadMetricView<F>>,
    one: Contribution<F>,
) -> Seq<WorkloadMetricView<F>>
    decreases workloads.len(),
{
    let fresh = with_sample(numbers, without_samples(one.key), one);
    if workloads.len() == 0 {
        seq![fresh]
    } else if workloads[0].key == one.key {
        seq![with_sample(numbers, workloads[0], one)] + workloads.drop_first()
    } else if key_before(workloads[0].key, one.key) {
        seq![workloads[0]] + with_contribution(numbers, workloads.drop_first(), one)
    } else {
        seq![fresh] + workloads
    }
}

fn later_time(a: Option<String>, b: &Option<String>) -> (time: Option<String>)
    ensures
        text_opt(time) == later(text_opt(a), text_opt(*b)),
{
    match (a, b) {
        (None, _) => b.clone(),
        (Some(x), None) => Some(x),
        (Some(x), Some(y)) => if text_is_before(x.as_str(), y.as_str()) {
            Some(y.clone())
        } else {
            Some(x)
        },
    }
}

fn add_sample<
    F: Copy,
    R: Fn(&str) -> Option<F>,
    S: Fn(F, Scale) -> F,
    C: Fn(F) -> NumberClass,
    P: Fn(F, F) -> F,
    N: Fn(F) -> u128,
>(
    numbers: &Numbers<F, R, S, C, P, N>,
    workload: WorkloadMetric<F>,
    pod_name: &str,
    metric: &ResourceMetricSummary<F>,
) -> (next: WorkloadMetric<F>)
    requires
        numbers.inv(),
    ensures
        next@ == with_sample(
            numbers@,
            workload@,
            (Contribution { key: workload@.key, pod: pod_name@, metric: metric@ }),
        ),
{
    let cpu: Tally<F> = match metric.cpu_millicores {
        Some(value) => tally_number(numbers, workload.cpu, value),
        None => workload.cpu,
    };
    let memory: Tally<i64> = match metric.memory_bytes {
        Some(value) => tally_byte_count(workload.memory, value),
        None => workload.memory,
    };
    let mut pods: Vec<String> = workload.pods;
    pods.push(pod_name.to_owned());
    assert(text_seq(pods@) =~= text_seq(workload.pods@).push(pod_name@));
    WorkloadMetric {
        key: workload.key,
        cpu,
        memory,
        sampled_at: later_time(workload.sampled_at, &metric.sampled_at),
        pods,
    }
}

proof fn lemma_with_contribution_at<F>(
    numbers: NumbersView<F>,
    workloads: Seq<WorkloadMetricView<F>>,
    one: Contribution<F>,
    at: int,
)
    requires
        0 <= at <= workloads.len(),
        forall|i: int| 0 <= i < at ==> key_before((#[trigger] workloads[i]).key, one.key),
        at < workloads.len() ==> !key_before(workloads[at].key, one.key),
    ensures
        with_contribution(numbers, workloads, one) == (if at < workloads.len()
            && workloads[at].key == one.key {
            workloads.update(at, with_sample(numbers, workloads[at], one))
        } else {
            workloads.insert(at, with_sample(numbers, without_samples(one.key), one))
        }),
    decreases at,
{
    let result = with_contribution(numbers, workloads, one);
    let expected = if at < workloads.len() && workloads[at].key == one.key {
        workloads.update(at, with_sample(numbers, workloads[at], one))
    } else {
        workloads.insert(at, with_sample(numbers, without_samples(one.key), one))
    };
    if at > 0 {
        assert(key_before(workloads[0].key, one.key));
        key_before_is_a_strict_total_order(one.key, one.key, one.key);
        let rest = workloads.drop_first();
        assert forall|i: int| 0 <= i < at - 1 implies key_before(
            (#[trigger] rest[i]).key,
            one.key,
        ) by {
            assert(rest[i] == workloads[i + 1]);
        }
        lemma_with_contribution_at(numbers, rest, one, at - 1);
        assert(result =~= expected);
    } else {
        assert(result =~= expected);
    }
}

/// Adds a sample of a pod to the workload `key`.
pub fn add_workload_metric<
    F: Copy,
    R: Fn(&str) -> Option<F>,
    S: Fn(F, Scale) -> F,
    C: Fn(F) -> NumberClass,
    P: Fn(F, F) -> F,
    N: Fn(F) -> u128,
>(
    numbers: &Numbers<F, R, S, C, P, N>,
    by_workload: &mut Vec<WorkloadMetric<F>>,
    key: WorkloadKey,
    pod_name: &str,
    metric: &ResourceMetricSummary<F>,
)
    requires
        numbers.inv(),
    ensures
        workload_views(final(by_workload)@) == with_contribution(
            numbers@,
            workload_views(old(by_workload)@),
            (Contribution { key: key@, pod: pod_name@, metric: metric@ }),
        ),
{
    let ghost before = workload_views(by_workload@);
    let ghost one = Contribution { key: key@, pod: pod_name@, metric: metric@ };
    let mut at: usize = 0;
    while at < by_workload.len() && key_is_before(&by_workload[at].key, &key)
        invariant
            at <= by_workload@.len(),
            before == workload_views(by_workload@),
            one.key == key@,
            forall|i: int| 0 <= i < at ==> key_before((#[trigger] before[i]).key, one.key),
        decreases by_workload@.len() - at,
    {
        assert(before[at as int] == by_workload@[at as int]@);
        at = at + 1;
    }
    proof {
        if at < by_workload@.len() {
            assert(before[at as int] == by_workload@[at as int]@);
        }
        lemma_with_contribution_at(numbers@, before, one, at as int);
    }
    if at < by_workload.len() && key_eq(&by_workload[at].key, &key) {
        let workload: WorkloadMetric<F> = by_workload.remove(at);
        let next: WorkloadMetric<F> = add_sample(numbers, workload, pod_name, metric);
        by_workload.insert(at, next);
        assert(workload_views(by_workload@) =~= before.update(
            at as int,
            with_sample(numbers@, before[at as int], one),
        ));
    } else {
        let fresh: WorkloadMetric<F> = WorkloadMetric {
            key,
            cpu: Tally::Empty,
            memory: Tally::Empty,
            sampled_at: None,
            pods: Vec::new(),
        };
        assert(fresh@ =~= without_samples(one.key));
        let next: WorkloadMetric<F> = add_sample(numbers, fresh, pod_name, metric);
        by_workload.insert(at, next);
        assert(workload_views(by_workload@) =~= before.insert(
            at as int,
            with_sample(numbers@, without_samples(one.key), one),
        ));
    }
}

proof fn lemma_rollup_push<F>(
    numbers: NumbersView<F>,
    key: WorkloadKeyView,
    own: Seq<Contribution<F>>,
    one: Contribution<F>,
)
    ensures
        rollup(numbers, key, own.push(one)) == with_sample(numbers, rollup(numbers, key, own), one),
{
    let all = own.push(one);
    let cpu = |one: Contribution<F>| one.metric.cpu_millicores;
    let memory = |one: Contribution<F>| one.metric.memory_bytes;
    let time = |one: Contribution<F>| one.metric.sampled_at;
    let pod = |one: Contribution<F>| one.pod;
    assert(all.map_values(cpu) =~= own.map_values(cpu).push(one.metric.cpu_millicores));
    assert(all.map_values(memory) =~= own.map_values(memory).push(one.metric.memory_bytes));
    assert(all.map_values(time) =~= own.map_values(time).push(one.metric.sampled_at));
    assert(all.map_values(pod) =~= own.map_values(pod).push(one.pod));
    present_of_one_more(own.map_values(cpu), one.metric.cpu_millicores);
    present_of_one_more(own.map_values(memory), one.metric.memory_bytes);
    if let Some(value) = one.metric.cpu_millicores {
        assert(present(own.map_values(cpu)).push(value).drop_last() =~= present(
            own.map_values(cpu),
        ));
    }
    if let Some(value) = one.metric.memory_bytes {
        assert(present(own.map_values(memory)).push(value).drop_last() =~= present(
            own.map_values(memory),
        ));
    }
    assert(own.map_values(time).push(one.metric.sampled_at).drop_last() =~= own.map_values(time));
}

proof fn lemma_counted_for_push<F>(
    counted: Seq<Contribution<F>>,
    one: Contribution<F>,
    key: WorkloadKeyView,
)
    ensures
        counted_for(counted.push(one), key) == (if one.key == key {
            counted_for(counted, key).push(one)
        } else {
            counted_for(counted, key)
        }),
{
    reveal(Seq::filter);
    assert(counted.push(one).drop_last() =~= counted);
}

/// Whether `keys` are in order, each once.
pub open spec fn in_order(keys: Seq<WorkloadKeyView>) -> bool {
    forall|i: int, j: int|
        0 <= i < j < keys.len() ==> key_before(#[trigger] keys[i], #[trigger] keys[j])
}

proof fn lemma_with_key(keys: Seq<WorkloadKeyView>, key: WorkloadKeyView)
    requires
        in_order(keys),
    ensures
        in_order(with_key(keys, key)),
        forall|other: WorkloadKeyView| #[trigger]
            with_key(keys, key).contains(other) <==> keys.contains(other) || other == key,
    decreases keys.len(),
{
    let result = with_key(keys, key);
    if keys.len() == 0 {
        assert(result[0] == key);
    } else {
        let rest = keys.drop_first();
        assert(forall|i: int| 0 <= i < rest.len() ==> rest[i] == keys[i + 1]);
        assert(in_order(rest));
        key_before_is_a_strict_total_order(keys[0], key, keys[0]);
        if keys[0] == key {
        } else if key_before(keys[0], key) {
            lemma_with_key(rest, key);
            let tail = with_key(rest, key);
            assert(result =~= seq![keys[0]] + tail);
            assert forall|i: int, j: int| 0 <= i < j < result.len() implies key_before(
                #[trigger] result[i],
                #[trigger] result[j],
            ) by {
                if i > 0 {
                    assert(result[i] == tail[i - 1] && result[j] == tail[j - 1]);
                } else {
                    assert(result[j] == tail[j - 1]);
                    assert(tail.contains(tail[j - 1]));
                    if tail[j - 1] != key {
                        assert(rest.contains(tail[j - 1]));
                        let k = rest.index_of(tail[j - 1]);
                        assert(rest[k] == keys[k + 1]);
                    }
                }
            }
            assert forall|other: WorkloadKeyView| #[trigger] result.contains(other) implies (
            keys.contains(other) || other == key) by {
                let i = result.index_of(other);
                if i > 0 {
                    assert(tail[i - 1] == other);
                    assert(tail.contains(other));
                    if other != key {
                        assert(rest.contains(other));
                        let k = rest.index_of(other);
                        assert(keys[k + 1] == other);
                    }
                } else {
                    assert(keys[0] == other);
                }
            }
            assert forall|other: WorkloadKeyView|
                keys.contains(other) || other == key implies #[trigger] result.contains(
                other,
            ) by {
                if keys.contains(other) {
                    let k = keys.index_of(other);
                    if k == 0 {
                        assert(result[0] == other);
                    } else {
                        assert(rest[k - 1] == other);
                        assert(tail.contains(other));
                        let m = tail.index_of(other);
                        assert(result[m + 1] == other);
                    }
                } else {
                    assert(tail.contains(other));
                    let m = tail.index_of(other);
                    assert(result[m + 1] == other);
                }
            }
        } else {
            assert(result =~= seq![key] + keys);
            assert forall|i: int, j: int| 0 <= i < j < result.len() implies key_before(
                #[trigger] result[i],
                #[trigger] result[j],
            ) by {
                if i > 0 {
                    assert(result[i] == keys[i - 1] && result[j] == keys[j - 1]);
                } else if j > 1 {
                    assert(key_before(keys[0], keys[j - 1]));
                    key_before_is_a_strict_total_order(key, keys[0], keys[j - 1]);
                }
            }
            assert(result[0] == key);
            assert forall|other: WorkloadKeyView|
                keys.contains(other) implies #[trigger] result.contains(other) by {
                let k = keys.index_of(other);
                assert(result[k + 1] == other);
            }
        }
    }
}

/// The entry of `workloads` under `key`, if there is one.
pub open spec fn entry_under<F>(
    workloads: Seq<WorkloadMetricView<F>>,
    key: WorkloadKeyView,
) -> Option<WorkloadMetricView<F>>
    decreases workloads.len(),
{
    if workloads.len() == 0 {
        None
    } else if workloads[0].key == key {
        Some(workloads[0])
    } else {
        entry_under(workloads.drop_first(), key)
    }
}

/// The keys of `workloads`.
pub open spec fn keys_of<F>(workloads: Seq<WorkloadMetricView<F>>) -> Seq<WorkloadKeyView> {
    workloads.map_values(|workload: WorkloadMetricView<F>| workload.key)
}

proof fn lemma_no_entry<F>(workloads: Seq<WorkloadMetricView<F>>, key: WorkloadKeyView)
    requires
        forall|i: int| 0 <= i < workloads.len() ==> (#[trigger] workloads[i]).key != key,
    ensures
        entry_under(workloads, key) is None,
    decreases workloads.len(),
{
    if workloads.len() > 0 {
        let rest = workloads.drop_first();
        assert(workloads[0].key != key);
        assert forall|i: int| 0 <= i < rest.len() implies (#[trigger] rest[i]).key != key by {
            assert(rest[i] == workloads[i + 1]);
        }
        lemma_no_entry(rest, key);
    }
}

proof fn lemma_entries_after<F>(
    numbers: NumbersView<F>,
    workloads: Seq<WorkloadMetricView<F>>,
    one: Contribution<F>,
    other: WorkloadKeyView,
)
    requires
        in_order(keys_of(workloads)),
    ensures
        ({
            let after = with_contribution(numbers, workloads, one);
            &&& keys_of(after) == with_key(keys_of(workloads), one.key)
            &&& entry_under(after, one.key) == Some(
                with_sample(
                    numbers,
                    match entry_under(workloads, one.key) {
                        Some(former) => former,
                        None => without_samples(one.key),
                    },
                    one,
                ),
            )
            &&& other != one.key ==> entry_under(after, other) == entry_under(workloads, other)
        }),
    decreases workloads.len(),
{
    let after = with_contribution(numbers, workloads, one);
    let keys = keys_of(workloads);
    let fresh = with_sample(numbers, without_samples(one.key), one);
    if workloads.len() == 0 {
        assert(keys_of(after) =~= with_key(keys, one.key));
        assert(after.drop_first() =~= seq![]);
        assert(entry_under(after.drop_first(), other) is None);
    } else {
        let rest = workloads.drop_first();
        assert(keys_of(rest) =~= keys.drop_first());
        assert forall|i: int, j: int| 0 <= i < j < keys_of(rest).len() implies key_before(
            #[trigger] keys_of(rest)[i],
            #[trigger] keys_of(rest)[j],
        ) by {
            assert(keys_of(rest)[i] == keys[i + 1] && keys_of(rest)[j] == keys[j + 1]);
        }
        assert(keys[0] == workloads[0].key);
        if workloads[0].key == one.key {
            assert(after.drop_first() =~= rest);
            assert(keys_of(after) =~= keys);
        } else if key_before(workloads[0].key, one.key) {
            lemma_entries_after(numbers, rest, one, other);
            let tail = with_contribution(numbers, rest, one);
            assert(after =~= seq![workloads[0]] + tail);
            assert(after.drop_first() =~= tail);
            assert(keys_of(after) =~= seq![keys[0]] + keys_of(tail));
        } else {
            assert(after =~= seq![fresh] + workloads);
            assert(after.drop_first() =~= workloads);
            assert(keys_of(after) =~= seq![one.key] + keys);
            assert forall|i: int| 0 <= i < workloads.len() implies (#[trigger] workloads[i]).key
                != one.key by {
                if i > 0 {
                    assert(key_before(keys[0], keys[i]));
                    key_before_is_a_strict_total_order(one.key, keys[0], one.key);
                    key_before_is_a_strict_total_order(keys[0], one.key, keys[0]);
                }
            }
            lemma_no_entry(workloads, one.key);
        }
    }
}

/// A sample changes one entry: on entries in the order of their keys, the keys stay in
/// order, the entry under the key of the sample is the former one with the sample, or one
/// with the sample alone, and every other key holds what it held.
pub proof fn a_sample_changes_one_entry<F>(
    numbers: NumbersView<F>,
    workloads: Seq<WorkloadMetricView<F>>,
    one: Contribution<F>,
)
    requires
        in_order(keys_of(workloads)),
    ensures
        ({
            let after = with_contribution(numbers, workloads, one);
            &&& in_order(keys_of(after))
            &&& entry_under(after, one.key) == Some(
                with_sample(
                    numbers,
                    match entry_under(workloads, one.key) {
                        Some(former) => former,
                        None => without_samples(one.key),
                    },
                    one,
                ),
            )
            &&& forall|other: WorkloadKeyView|
                other != one.key ==> #[trigger] entry_under(after, other) == entry_under(
                    workloads,
                    other,
                )
        }),
{
    let after = with_contribution(numbers, workloads, one);
    lemma_entries_after(numbers, workloads, one, one.key);
    assert forall|other: WorkloadKeyView| other != one.key implies #[trigger] entry_under(
        after,
        other,
    ) == entry_under(workloads, other) by {
        lemma_entries_after(numbers, workloads, one, other);
    }
    lemma_with_key(keys_of(workloads), one.key);
}

/// The workloads are in order, each once, and are those that anything counts for.
pub proof fn workloads_are_those_counted_for<F>(counted: Seq<Contribution<F>>)
    ensures
        in_order(workloads_of(counted)),
        forall|key: WorkloadKeyView| #[trigger]
            workloads_of(counted).contains(key) <==> counted_for(counted, key).len() > 0,
    decreases counted.len(),
{
    reveal(Seq::filter);
    if counted.len() > 0 {
        let earlier = counted.drop_last();
        let one = counted.last();
        workloads_are_those_counted_for(earlier);
        lemma_with_key(workloads_of(earlier), one.key);
        assert(earlier.push(one) =~= counted);
        assert forall|key: WorkloadKeyView| #[trigger]
            workloads_of(counted).contains(key) <==> counted_for(counted, key).len() > 0 by {
            lemma_counted_for_push(earlier, one, key);
            assert(workloads_of(earlier).contains(key) <==> counted_for(earlier, key).len() > 0);
        }
    }
}

proof fn lemma_with_contribution<F>(
    numbers: NumbersView<F>,
    keys: Seq<WorkloadKeyView>,
    counted: Seq<Contribution<F>>,
    one: Contribution<F>,
)
    requires
        in_order(keys),
        !keys.contains(one.key) ==> counted_for(counted, one.key).len() == 0,
    ensures
        with_contribution(
            numbers,
            keys.map_values(
                |key: WorkloadKeyView| rollup(numbers, key, counted_for(counted, key)),
            ),
            one,
        ) == with_key(keys, one.key).map_values(
            |key: WorkloadKeyView| rollup(numbers, key, counted_for(counted.push(one), key)),
        ),
    decreases keys.len(),
{
    let old_rollup = |key: WorkloadKeyView| rollup(numbers, key, counted_for(counted, key));
    let new_rollup = |key: WorkloadKeyView|
        rollup(numbers, key, counted_for(counted.push(one), key));
    let workloads = keys.map_values(old_rollup);
    lemma_counted_for_push(counted, one, one.key);
    lemma_rollup_push(numbers, one.key, counted_for(counted, one.key), one);
    assert forall|key: WorkloadKeyView| key != one.key implies #[trigger] new_rollup(key)
        == old_rollup(key) by {
        lemma_counted_for_push(counted, one, key);
    }
    assert(new_rollup(one.key) == with_sample(numbers, old_rollup(one.key), one));
    let result = with_contribution(numbers, workloads, one);
    let expected = with_key(keys, one.key).map_values(new_rollup);
    let fresh = with_sample(numbers, without_samples(one.key), one);
    if !keys.contains(one.key) {
        let own = counted_for(counted, one.key);
        assert(own =~= seq![]);
        assert(own.map_values(|one: Contribution<F>| one.metric.cpu_millicores) =~= seq![]);
        assert(own.map_values(|one: Contribution<F>| one.metric.memory_bytes) =~= seq![]);
        assert(own.map_values(|one: Contribution<F>| one.metric.sampled_at) =~= seq![]);
        assert(own.map_values(|one: Contribution<F>| one.pod) =~= seq![]);
        assert(old_rollup(one.key) =~= without_samples(one.key));
        assert(new_rollup(one.key) == fresh);
    }
    if keys.len() == 0 {
        assert(result =~= expected);
    } else {
        let rest = keys.drop_first();
        assert(forall|i: int| 0 <= i < rest.len() ==> rest[i] == keys[i + 1]);
        assert(in_order(rest));
        assert(workloads.drop_first() =~= rest.map_values(old_rollup));
        key_before_is_a_strict_total_order(keys[0], one.key, keys[0]);
        assert(workloads[0].key == keys[0]);
        if keys[0] == one.key {
            assert forall|i: int| 0 < i < keys.len() implies #[trigger] keys[i] != one.key by {
                key_before_is_a_strict_total_order(keys[i], keys[0], keys[i]);
                assert(key_before(keys[0], keys[i]));
            }
            assert forall|i: int| 0 <= i < keys.len() implies #[trigger] result[i]
                == expected[i] by {
                if i > 0 {
                    assert(result[i] == workloads[i]);
                    assert(workloads[i] == old_rollup(keys[i]));
                    assert(expected[i] == new_rollup(keys[i]));
                }
            }
            assert(result =~= expected);
        } else if key_before(keys[0], one.key) {
            if !rest.contains(one.key) && keys.contains(one.key) {
                let k = keys.index_of(one.key);
                assert(rest[k - 1] == one.key);
            }
            lemma_with_contribution(numbers, rest, counted, one);
            let tail = with_key(rest, one.key);
            assert(with_key(keys, one.key) =~= seq![keys[0]] + tail);
            assert(expected =~= seq![new_rollup(keys[0])] + tail.map_values(new_rollup));
            assert(result =~= seq![workloads[0]] + tail.map_values(new_rollup));
        } else {
            assert forall|i: int| 0 <= i < keys.len() implies #[trigger] keys[i] != one.key by {
                if i > 0 {
                    assert(key_before(keys[0], keys[i]));
                    key_before_is_a_strict_total_order(one.key, keys[0], keys[i]);
                    key_before_is_a_strict_total_order(one.key, one.key, one.key);
                }
            }
            assert(!keys.contains(one.key));
            assert(result =~= seq![fresh] + workloads);
            assert forall|i: int| 0 <= i < result.len() implies #[trigger] result[i]
                == expected[i] by {
                if i > 0 {
                    assert(result[i] == old_rollup(keys[i - 1]));
                    assert(expected[i] == new_rollup(keys[i - 1]));
                }
            }
            assert(result =~= expected);
        }
    }
}

proof fn lemma_rollups_push<F>(
    numbers: NumbersView<F>,
    counted: Seq<Contribution<F>>,
    one: Contribution<F>,
)
    ensures
        with_contribution(numbers, rollups(numbers, counted), one) == rollups(
            numbers,
            counted.push(one),
        ),
{
    workloads_are_those_counted_for(counted);
    assert(counted.push(one).drop_last() =~= counted);
    lemma_with_contribution(numbers, workloads_of(counted), counted, one);
}

/// What a workload uses, once it could not be held, stays unknown whatever else is
/// counted.
pub proof fn an_overflowed_workload_stays_unknown<F>(
    numbers: NumbersView<F>,
    counted: Seq<Contribution<F>>,
    key: WorkloadKeyView,
    count: int,
)
    requires
        0 <= count <= counted.len(),
    ensures
        ({
            let earlier = rollup(numbers, key, counted_for(counted.take(count), key));
            let all = rollup(numbers, key, counted_for(counted, key));
            &&& earlier.memory is Overflowed ==> all.memory is Overflowed && all.memory.total()
                is None
            &&& earlier.cpu is Overflowed ==> all.cpu is Overflowed && all.cpu.total() is None
        }),
    decreases counted.len(),
{
    if count < counted.len() {
        let rest = counted.drop_last();
        let one = counted.last();
        assert(rest.push(one) =~= counted);
        assert(rest.take(count) =~= counted.take(count));
        an_overflowed_workload_stays_unknown(numbers, rest, key, count);
        lemma_counted_for_push(rest, one, key);
        lemma_rollup_push(numbers, key, counted_for(rest, key), one);
    } else {
        assert(counted.take(count) =~= counted);
    }
}

/// The metrics of all workloads: a pod with a sample counts for its owner, and for the
/// workload that its replica set belongs to.
pub fn aggregate_workload_metrics<
    F: Copy,
    R: Fn(&str) -> Option<F>,
    S: Fn(F, Scale) -> F,
    C: Fn(F) -> NumberClass,
    P: Fn(F, F) -> F,
    N: Fn(F) -> u128,
>(
    numbers: &Numbers<F, R, S, C, P, N>,
    cluster_context: &str,
    pods: &[OwnedObject],
    replicasets: &[OwnedObject],
    pod_metrics: &[ResourceMetricSummary<F>],
) -> (workloads: Vec<ResourceMetricSummary<F>>)
    requires
        numbers.inv(),
    ensures
        metric_views(workloads@) == workload_metrics(
            numbers@,
            cluster_context@,
            pods@,
            replicasets@,
            metric_views(pod_metrics@),
        ),
{
    let mut by_workload: Vec<WorkloadMetric<F>> = Vec::new();
    let ghost samples = metric_views(pod_metrics@);
    let ghost mut counted: Seq<Contribution<F>> = seq![];
    let mut i: usize = 0;
    assert(pods@.take(0) =~= seq![]);
    assert(contributions(pods@.take(0), replicasets@, samples) =~= seq![]);
    assert(workload_views(by_workload@) =~= rollups(numbers@, counted));
    while i < pods.len()
        invariant
            numbers.inv(),
            i <= pods@.len(),
            samples == metric_views(pod_metrics@),
            counted == contributions(pods@.take(i as int), replicasets@, samples),
            workload_views(by_workload@) == rollups(numbers@, counted),
        decreases pods@.len() - i,
    {
        let pod: &OwnedObject = &pods[i];
        let ghost added = pod_contributions(*pod, replicasets@, samples);
        assert(pods@.take(i + 1).drop_last() =~= pods@.take(i as int));
        assert(pods@.take(i + 1).last() == *pod);
        assert(contributions(pods@.take(i + 1), replicasets@, samples) == counted + added);
        i = i + 1;
        let namespace: String = clone_or_empty(&pod.namespace);
        let name: String = clone_or_empty(&pod.name);
        let metric: Option<&ResourceMetricSummary<F>> = find_sample(
            pod_metrics,
            namespace.as_str(),
            name.as_str(),
        );
        let owner: Option<&OwnerReference> = owner_named_by(pod);
        match (metric, owner) {
            (Some(metric), Some(owner)) => {
                let key: WorkloadKey = WorkloadKey {
                    kind: owner.kind.clone(),
                    namespace,
                    name: owner.name.clone(),
                };
                let parent: Option<WorkloadKey> = find_parent(replicasets, &key);
                proof {
                    lemma_rollups_push(numbers@, counted, added[0]);
                }
                add_workload_metric(numbers, &mut by_workload, key, name.as_str(), metric);
                match parent {
                    Some(parent_key) => {
                        proof {
                            lemma_rollups_push(numbers@, counted.push(added[0]), added[1]);
                            assert(counted.push(added[0]).push(added[1]) =~= counted + added);
                        }
                        add_workload_metric(
                            numbers,
                            &mut by_workload,
                            parent_key,
                            name.as_str(),
                            metric,
                        );
                    },
                    None => {
                        assert(counted.push(added[0]) =~= counted + added);
                    },
                }
            },
            _ => {
                assert(counted + added =~= counted);
            },
        }
        proof {
            counted = counted + added;
        }
    }
    assert(pods@.take(i as int) =~= pods@);
    report(cluster_context, by_workload)
}

fn report<F: Copy>(cluster_context: &str, by_workload: Vec<WorkloadMetric<F>>) -> (reports: Vec<
    ResourceMetricSummary<F>,
>)
    ensures
        metric_views(reports@) == workload_views(by_workload@).map_values(
            |workload: WorkloadMetricView<F>| reported(cluster_context@, workload),
        ),
{
    let ghost all = workload_views(by_workload@);
    let ghost say = |workload: WorkloadMetricView<F>| reported(cluster_context@, workload);
    let mut reports: Vec<ResourceMetricSummary<F>> = Vec::new();
    assert(metric_views(reports@) =~= all.take(0).map_values(say));
    for workload in it: by_workload
        invariant
            it.seq() == by_workload@,
            all == workload_views(by_workload@),
            say == (|workload: WorkloadMetricView<F>| reported(cluster_context@, workload)),
            metric_views(reports@) == all.take(it.index()).map_values(say),
    {
        let ghost before = metric_views(reports@);
        assert(all[it.index()] == workload@);
        let metric: ResourceMetricSummary<F> = ResourceMetricSummary {
            kind: workload.key.kind,
            cluster: cluster_context.to_owned(),
            name: workload.key.name,
            namespace: Some(workload.key.namespace),
            cpu_millicores: tally_total(&workload.cpu),
            memory_bytes: tally_total(&workload.memory),
            sampled_at: workload.sampled_at,
            source_pods: workload.pods,
        };
        assert(metric@ =~= say(workload@));
        reports.push(metric);
        assert(metric_views(reports@) =~= before.push(say(workload@)));
        assert(all.take(it.index() + 1).map_values(say) =~= all.take(it.index()).map_values(
            say,
        ).push(say(workload@)));
    }
    assert(all.take(all.len() as int) =~= all);
    reports
}

/// Workloads are ordered by their kinds, those of one kind by their namespaces, and those
/// of one namespace by their names.
pub proof fn workloads_are_ordered_by_kind_namespace_and_name(
    a: WorkloadKeyView,
    b: WorkloadKeyView,
)
    ensures
        a.kind != b.kind ==> key_before(a, b) == text_before(a.kind, b.kind),
        a.kind == b.kind && a.namespace != b.namespace ==> key_before(a, b) == text_before(
            a.namespace,
            b.namespace,
        ),
        a.kind == b.kind && a.namespace == b.namespace ==> key_before(a, b) == text_before(
            a.name,
            b.name,
        ),
{
    text_before_is_a_strict_total_order(a.kind, b.kind, a.kind);
    text_before_is_a_strict_total_order(a.namespace, b.namespace, a.namespace);
}

proof fn lemma_first_controller(owners: Seq<OwnerReference>, at: int)
    requires
        0 <= at <= owners.len(),
        forall|i: int| 0 <= i < at ==> (#[trigger] owners[i]).controller != Some(true),
        at < owners.len() ==> owners[at].controller == Some(true),
    ensures
        first_controller(owners) == (if at < owners.len() {
            Some(owners[at])
        } else {
            None
        }),
    decreases at,
{
    if at > 0 {
        let rest = owners.drop_first();
        assert(owners[0].controller != Some(true));
        assert forall|i: int| 0 <= i < at - 1 implies (#[trigger] rest[i]).controller != Some(
            true,
        ) by {
            assert(rest[i] == owners[i + 1]);
        }
        lemma_first_controller(rest, at - 1);
    }
}

/// An object belongs to its controller, wherever that stands among its owners; of several
/// the first counts.
pub proof fn an_object_belongs_to_its_controller(
    object: OwnedObject,
    owners: Vec<OwnerReference>,
    at: int,
)
    requires
        object.owner_references == Some(owners),
        0 <= at < owners@.len(),
        owners@[at].controller == Some(true),
        forall|i: int| 0 <= i < at ==> (#[trigger] owners@[i]).controller != Some(true),
    ensures
        owner_of(object) == Some(owners@[at]),
        owner_among(owners@) == Some(owners@[at]),
{
    lemma_first_controller(owners@, at);
}

/// An object that none of its owners controls belongs to the first of them, and one
/// without owners to nothing.
pub proof fn an_uncontrolled_object_belongs_to_its_first_owner(
    object: OwnedObject,
    owners: Vec<OwnerReference>,
)
    requires
        forall|i: int| 0 <= i < owners@.len() ==> (#[trigger] owners@[i]).controller != Some(true),
    ensures
        owners@.len() > 0 ==> owner_among(owners@) == Some(owners@[0]),
        owners@.len() == 0 ==> owner_among(owners@) is None,
        object.owner_references == Some(owners) ==> owner_of(object) == owner_among(owners@),
        object.owner_references is None ==> owner_of(object) is None,
{
    lemma_first_controller(owners@, owners@.len() as int);
}

/// The sample of a pod is the last one that has both its namespace and its name.
pub proof fn the_last_sample_of_a_pod_counts<F>(
    metrics: Seq<ResourceMetricView<F>>,
    namespace: Seq<char>,
    name: Seq<char>,
    at: int,
)
    requires
        -1 <= at < metrics.len(),
        at >= 0 ==> metrics[at].namespace == Some(namespace) && metrics[at].name == name,
        forall|i: int|
            at < i < metrics.len() ==> (#[trigger] metrics[i]).namespace != Some(namespace)
                || metrics[i].name != name,
    ensures
        at >= 0 ==> sample_of(metrics, namespace, name) == Some(metrics[at]),
        at < 0 ==> sample_of(metrics, namespace, name) is None,
    decreases metrics.len(),
{
    if at < metrics.len() - 1 {
        let earlier = metrics.drop_last();
        assert(metrics[metrics.len() - 1].namespace != Some(namespace) || metrics[metrics.len()
            - 1].name != name);
        assert forall|i: int| at < i < earlier.len() implies (#[trigger] earlier[i]).namespace
            != Some(namespace) || earlier[i].name != name by {
            assert(earlier[i] == metrics[i]);
        }
        the_last_sample_of_a_pod_counts(earlier, namespace, name, at);
    }
}

/// A replica set belongs to the owner that the last replica set of its namespace and name
/// with an owner names, in the same namespace.
pub proof fn a_replica_set_belongs_to_its_owner(
    replicasets: Seq<OwnedObject>,
    key: WorkloadKeyView,
    at: int,
    owner: OwnerReference,
)
    requires
        key.kind == "ReplicaSet"@,
        0 <= at < replicasets.len(),
        text_opt(replicasets[at].namespace) == Some(key.namespace),
        text_opt(replicasets[at].name) == Some(key.name),
        owner_of(replicasets[at]) == Some(owner),
        forall|i: int|
            at < i < replicasets.len() ==> text_opt((#[trigger] replicasets[i]).namespace) != Some(
                key.namespace,
            ) || text_opt(replicasets[i].name) != Some(key.name) || owner_of(
                replicasets[i],
            ) is None,
    ensures
        parent_of(replicasets, key) == Some(
            WorkloadKeyView { kind: owner.kind@, namespace: key.namespace, name: owner.name@ },
        ),
    decreases replicasets.len(),
{
    if at < replicasets.len() - 1 {
        let earlier = replicasets.drop_last();
        let last = replicasets[replicasets.len() - 1];
        assert(text_opt(last.namespace) != Some(key.namespace) || text_opt(last.name) != Some(
            key.name,
        ) || owner_of(last) is None);
        assert forall|i: int| at < i < earlier.len() implies text_opt(
            (#[trigger] earlier[i]).namespace,
        ) != Some(key.namespace) || text_opt(earlier[i].name) != Some(key.name) || owner_of(
            earlier[i],
        ) is None by {
            assert(earlier[i] == replicasets[i]);
        }
        a_replica_set_belongs_to_its_owner(earlier, key, at, owner);
    }
}

/// What is no replica set belongs to nothing further, and neither does a replica set that
/// was not listed with an owner.
pub proof fn nothing_else_belongs_to_an_owner(replicasets: Seq<OwnedObject>, key: WorkloadKeyView)
    requires
        key.kind != "ReplicaSet"@ || forall|i: int|
            0 <= i < replicasets.len() ==> text_opt((#[trigger] replicasets[i]).namespace) != Some(
                key.namespace,
            ) || text_opt(replicasets[i].name) != Some(key.name) || owner_of(
                replicasets[i],
            ) is None,
    ensures
        parent_of(replicasets, key) is None,
    decreases replicasets.len(),
{
    if replicasets.len() > 0 {
        let earlier = replicasets.drop_last();
        if key.kind == "ReplicaSet"@ {
            let last = replicasets[replicasets.len() - 1];
            assert(text_opt(last.namespace) != Some(key.namespace) || text_opt(last.name) != Some(
                key.name,
            ) || owner_of(last) is None);
            assert forall|i: int| 0 <= i < earlier.len() implies text_opt(
                (#[trigger] earlier[i]).namespace,
            ) != Some(key.namespace) || text_opt(earlier[i].name) != Some(key.name) || owner_of(
                earlier[i],
            ) is None by {
                assert(earlier[i] == replicasets[i]);
            }
        }
        nothing_else_belongs_to_an_owner(earlier, key);
    }
}

/// A pod with a sample and an owner counts with that sample, under its own name, for its
/// owner in its own namespace, and for the workload that its owner belongs to where that
/// is a replica set; for nothing else, and for each of them once.
pub proof fn a_pod_counts_for_its_owners<F>(
    pod: OwnedObject,
    replicasets: Seq<OwnedObject>,
    metrics: Seq<ResourceMetricView<F>>,
    namespace: Seq<char>,
    name: Seq<char>,
    owner: OwnerReference,
    sample: ResourceMetricView<F>,
)
    requires
        pod.namespace matches Some(text) ==> namespace == text@,
        pod.namespace is None ==> namespace.len() == 0,
        pod.name matches Some(text) ==> name == text@,
        pod.name is None ==> name.len() == 0,
        owner_of(pod) == Some(owner),
        sample_of(metrics, namespace, name) == Some(sample),
    ensures
        ({
            let key = WorkloadKeyView { kind: owner.kind@, namespace, name: owner.name@ };
            let counted = pod_contributions(pod, replicasets, metrics);
            &&& counted.len() == (if parent_of(replicasets, key) is Some {
                2int
            } else {
                1
            })
            &&& counted[0].key == key
            &&& parent_of(replicasets, key) matches Some(parent) ==> counted[1].key == parent
            &&& forall|i: int|
                0 <= i < counted.len() ==> (#[trigger] counted[i]).pod == name && counted[i].metric
                    == sample
        }),
{
    assert(text_or_empty(pod.namespace) =~= namespace);
    assert(text_or_empty(pod.name) =~= name);
}

/// A pod without a sample or without an owner counts for nothing.
pub proof fn other_pods_count_for_nothing<F>(
    pod: OwnedObject,
    replicasets: Seq<OwnedObject>,
    metrics: Seq<ResourceMetricView<F>>,
    namespace: Seq<char>,
    name: Seq<char>,
)
    requires
        pod.namespace matches Some(text) ==> namespace == text@,
        pod.namespace is None ==> namespace.len() == 0,
        pod.name matches Some(text) ==> name == text@,
        pod.name is None ==> name.len() == 0,
        owner_of(pod) is None || sample_of(metrics, namespace, name) is None,
    ensures
        pod_contributions(pod, replicasets, metrics).len() == 0,
{
    assert(text_or_empty(pod.namespace) =~= namespace);
    assert(text_or_empty(pod.name) =~= name);
}

/// Pods count one by one, in order: no pod changes what another one counts for.
pub proof fn pods_count_one_by_one<F>(
    a: Seq<OwnedObject>,
    b: Seq<OwnedObject>,
    pod: OwnedObject,
    replicasets: Seq<OwnedObject>,
    metrics: Seq<ResourceMetricView<F>>,
)
    ensures
        contributions(a + b, replicasets, metrics) == contributions(a, replicasets, metrics)
            + contributions(b, replicasets, metrics),
        contributions(seq![pod], replicasets, metrics) == pod_contributions(
            pod,
            replicasets,
            metrics,
        ),
    decreases b.len(),
{
    reveal_with_fuel(contributions, 2);
    let one = seq![pod];
    assert(one.drop_last() =~= seq![]);
    assert(contributions(one, replicasets, metrics) =~= pod_contributions(
        pod,
        replicasets,
        metrics,
    ));
    if b.len() == 0 {
        assert(a + b =~= a);
        assert(contributions(a, replicasets, metrics) + contributions(b, replicasets, metrics)
            =~= contributions(a, replicasets, metrics));
    } else {
        pods_count_one_by_one(a, b.drop_last(), pod, replicasets, metrics);
        assert((a + b).drop_last() =~= a + b.drop_last());
        assert((a + b).last() == b.last());
        assert(contributions(a + b, replicasets, metrics) =~= contributions(
            a,
            replicasets,
            metrics,
        ) + contributions(b, replicasets, metrics));
    }
}

proof fn lemma_latest(times: Seq<Option<Seq<char>>>)
    ensures
        latest(times) matches Some(time) ==> times.contains(Some(time)),
        forall|i: int|
            0 <= i < times.len() ==> ((#[trigger] times[i]) matches Some(time) ==> (latest(
                times,
            ) matches Some(last) && !text_before(last, time))),
    decreases times.len(),
{
    if times.len() > 0 {
        let earlier = times.drop_last();
        let last = times[times.len() - 1];
        lemma_latest(earlier);
        if let Some(time) = latest(earlier) {
            let k = earlier.index_of(Some(time));
            assert(times[k] == Some(time));
        }
        assert(times.contains(last));
        assert forall|i: int| 0 <= i < times.len() implies ((#[trigger] times[i]) matches Some(time)
            ==> (latest(times) matches Some(newest) && !text_before(newest, time))) by {
            if let Some(time) = times[i] {
                let newest = latest(times)->0;
                text_before_is_a_strict_total_order(time, time, time);
                if i < earlier.len() {
                    assert(earlier[i] == Some(time));
                    let before = latest(earlier)->0;
                    if let Some(added) = last {
                        if text_before(before, added) {
                            text_before_is_a_strict_total_order(before, added, time);
                        }
                    }
                }
            }
        }
    }
}

/// What of `counted` counts for the workload that `entry` reports, in order.
pub open spec fn counted_in<F>(
    counted: Seq<Contribution<F>>,
    entry: ResourceMetricView<F>,
) -> Seq<Contribution<F>> {
    counted.filter(
        |one: Contribution<F>|
            one.key.kind == entry.kind && Some(one.key.namespace) == entry.namespace && one.key.name
                == entry.name,
    )
}

proof fn lemma_entry<F>(
    numbers: NumbersView<F>,
    cluster: Seq<char>,
    pods: Seq<OwnedObject>,
    replicasets: Seq<OwnedObject>,
    metrics: Seq<ResourceMetricView<F>>,
    at: int,
) -> (key: WorkloadKeyView)
    requires
        0 <= at < workload_metrics(numbers, cluster, pods, replicasets, metrics).len(),
    ensures
        ({
            let counted = contributions(pods, replicasets, metrics);
            let entry = workload_metrics(numbers, cluster, pods, replicasets, metrics)[at];
            &&& at < workloads_of(counted).len()
            &&& key == workloads_of(counted)[at]
            &&& key.kind == entry.kind && Some(key.namespace) == entry.namespace && key.name
                == entry.name
            &&& entry == reported(cluster, rollup(numbers, key, counted_in(counted, entry)))
            &&& counted_in(counted, entry) == counted_for(counted, key)
        }),
{
    let counted = contributions(pods, replicasets, metrics);
    let key = workloads_of(counted)[at];
    let entry = workload_metrics(numbers, cluster, pods, replicasets, metrics)[at];
    let by_entry = |one: Contribution<F>|
        one.key.kind == entry.kind && Some(one.key.namespace) == entry.namespace && one.key.name
            == entry.name;
    let by_key = |one: Contribution<F>| one.key == key;
    assert forall|one: Contribution<F>| #[trigger] by_entry(one) == by_key(one) by {
        if by_entry(one) {
            assert(one.key =~= key);
        }
    }
    assert(by_entry =~= by_key);
    key
}

/// The time of a workload is that of its latest sample: it is the time of one of the
/// samples that count for it, and none of them was made later. It has no time only where
/// none of them has one.
pub proof fn a_workload_has_the_time_of_its_latest_sample<F>(
    numbers: NumbersView<F>,
    cluster: Seq<char>,
    pods: Seq<OwnedObject>,
    replicasets: Seq<OwnedObject>,
    metrics: Seq<ResourceMetricView<F>>,
    at: int,
)
    requires
        0 <= at < workload_metrics(numbers, cluster, pods, replicasets, metrics).len(),
    ensures
        ({
            let entry = workload_metrics(numbers, cluster, pods, replicasets, metrics)[at];
            let own = counted_in(contributions(pods, replicasets, metrics), entry);
            &&& entry.sampled_at matches Some(time) ==> exists|i: int|
                0 <= i < own.len() && (#[trigger] own[i]).metric.sampled_at == Some(time)
            &&& forall|i: int|
                0 <= i < own.len() ==> ((#[trigger] own[i]).metric.sampled_at matches Some(time)
                    ==> (entry.sampled_at matches Some(last) && !text_before(last, time)))
        }),
{
    let _ = lemma_entry(numbers, cluster, pods, replicasets, metrics, at);
    let entry = workload_metrics(numbers, cluster, pods, replicasets, metrics)[at];
    let own = counted_in(contributions(pods, replicasets, metrics), entry);
    let times = own.map_values(|one: Contribution<F>| one.metric.sampled_at);
    lemma_latest(times);
    assert(entry.sampled_at == latest(times));
    if let Some(time) = entry.sampled_at {
        let i = times.index_of(Some(time));
        assert(own[i].metric.sampled_at == Some(time));
    }
    assert forall|i: int| 0 <= i < own.len() implies ((
    #[trigger] own[i]).metric.sampled_at matches Some(time) ==> (entry.sampled_at matches Some(last)
        && !text_before(last, time))) by {
        assert(times[i] == own[i].metric.sampled_at);
    }
}

proof fn lemma_contributions_of<F>(
    pods: Seq<OwnedObject>,
    replicasets: Seq<OwnedObject>,
    metrics: Seq<ResourceMetricView<F>>,
    one: Contribution<F>,
)
    ensures
        contributions(pods, replicasets, metrics).contains(one) <==> exists|pod: OwnedObject|
            pods.contains(pod) && #[trigger] pod_contributions(
                pod,
                replicasets,
                metrics,
            ).contains(one),
    decreases pods.len(),
{
    let all = contributions(pods, replicasets, metrics);
    if pods.len() > 0 {
        let earlier = pods.drop_last();
        let last = pods[pods.len() - 1];
        let before = contributions(earlier, replicasets, metrics);
        let added = pod_contributions(last, replicasets, metrics);
        lemma_contributions_of(earlier, replicasets, metrics, one);
        assert(all == before + added);
        if all.contains(one) {
            let i = all.index_of(one);
            if i < before.len() {
                assert(before[i] == one);
                assert(before.contains(one));
                let pod = choose|pod: OwnedObject|
                    earlier.contains(pod) && #[trigger] pod_contributions(
                        pod,
                        replicasets,
                        metrics,
                    ).contains(one);
                let k = earlier.index_of(pod);
                assert(pods[k] == pod);
                assert(pods.contains(pod));
            } else {
                assert(added[i - before.len()] == one);
                assert(added.contains(one));
                assert(pods.contains(last));
            }
        }
        if exists|pod: OwnedObject|
            pods.contains(pod) && #[trigger] pod_contributions(
                pod,
                replicasets,
                metrics,
            ).contains(one) {
            let pod = choose|pod: OwnedObject|
                pods.contains(pod) && #[trigger] pod_contributions(
                    pod,
                    replicasets,
                    metrics,
                ).contains(one);
            let k = pods.index_of(pod);
            if k < earlier.len() {
                assert(earlier[k] == pod);
                assert(earlier.contains(pod));
                assert(before.contains(one));
                let i = before.index_of(one);
                assert(all[i] == one);
            } else {
                let i = added.index_of(one);
                assert(all[before.len() + i] == one);
            }
        }
    }
}

/// In which order the pods are listed makes no difference to the time of a workload.
pub proof fn the_order_of_pods_does_not_change_the_time<F>(
    numbers: NumbersView<F>,
    cluster: Seq<char>,
    pods: Seq<OwnedObject>,
    others: Seq<OwnedObject>,
    replicasets: Seq<OwnedObject>,
    metrics: Seq<ResourceMetricView<F>>,
    at: int,
    other_at: int,
)
    requires
        forall|pod: OwnedObject| #[trigger] pods.contains(pod) <==> others.contains(pod),
        0 <= at < workload_metrics(numbers, cluster, pods, replicasets, metrics).len(),
        0 <= other_at < workload_metrics(numbers, cluster, others, replicasets, metrics).len(),
        ({
            let a = workload_metrics(numbers, cluster, pods, replicasets, metrics)[at];
            let b = workload_metrics(numbers, cluster, others, replicasets, metrics)[other_at];
            a.kind == b.kind && a.namespace == b.namespace && a.name == b.name
        }),
    ensures
        workload_metrics(numbers, cluster, pods, replicasets, metrics)[at].sampled_at
            == workload_metrics(numbers, cluster, others, replicasets, metrics)[other_at].sampled_at,
{
    lemma_time_of_the_same_pods(
        numbers,
        cluster,
        pods,
        others,
        replicasets,
        metrics,
        at,
        other_at,
    );
    assert forall|pod: OwnedObject| #[trigger] others.contains(pod) <==> pods.contains(pod) by {
        assert(pods.contains(pod) <==> others.contains(pod));
    }
    lemma_time_of_the_same_pods(
        numbers,
        cluster,
        others,
        pods,
        replicasets,
        metrics,
        other_at,
        at,
    );
    let a = workload_metrics(numbers, cluster, pods, replicasets, metrics)[at].sampled_at;
    let b = workload_metrics(numbers, cluster, others, replicasets, metrics)[other_at].sampled_at;
    if let (Some(x), Some(y)) = (a, b) {
        text_before_is_a_strict_total_order(x, y, x);
    }
}

/// The time of a workload is not before its time by another list of the same pods.
proof fn lemma_time_of_the_same_pods<F>(
    numbers: NumbersView<F>,
    cluster: Seq<char>,
    pods: Seq<OwnedObject>,
    others: Seq<OwnedObject>,
    replicasets: Seq<OwnedObject>,
    metrics: Seq<ResourceMetricView<F>>,
    at: int,
    other_at: int,
)
    requires
        forall|pod: OwnedObject| #[trigger] pods.contains(pod) <==> others.contains(pod),
        0 <= at < workload_metrics(numbers, cluster, pods, replicasets, metrics).len(),
        0 <= other_at < workload_metrics(numbers, cluster, others, replicasets, metrics).len(),
        ({
            let a = workload_metrics(numbers, cluster, pods, replicasets, metrics)[at];
            let b = workload_metrics(numbers, cluster, others, replicasets, metrics)[other_at];
            a.kind == b.kind && a.namespace == b.namespace && a.name == b.name
        }),
    ensures
        workload_metrics(numbers, cluster, others, replicasets, metrics)[other_at].sampled_at matches Some(
            time,
        ) ==> (workload_metrics(
            numbers,
            cluster,
            pods,
            replicasets,
            metrics,
        )[at].sampled_at matches Some(last) && !text_before(last, time)),
{
    broadcast use vstd::seq_lib::group_filter_ensures;

    let a = workload_metrics(numbers, cluster, pods, replicasets, metrics)[at];
    let b = workload_metrics(numbers, cluster, others, replicasets, metrics)[other_at];
    let counted = contributions(pods, replicasets, metrics);
    let other_counted = contributions(others, replicasets, metrics);
    a_workload_has_the_time_of_its_latest_sample(numbers, cluster, pods, replicasets, metrics, at);
    a_workload_has_the_time_of_its_latest_sample(
        numbers,
        cluster,
        others,
        replicasets,
        metrics,
        other_at,
    );
    if let Some(time) = b.sampled_at {
        let theirs = counted_in(other_counted, b);
        let i = choose|i: int|
            0 <= i < theirs.len() && (#[trigger] theirs[i]).metric.sampled_at == Some(time);
        let one = theirs[i];
        let by_b = |one: Contribution<F>|
            one.key.kind == b.kind && Some(one.key.namespace) == b.namespace && one.key.name
                == b.name;
        let by_a = |one: Contribution<F>|
            one.key.kind == a.kind && Some(one.key.namespace) == a.namespace && one.key.name
                == a.name;
        assert(theirs == other_counted.filter(by_b));
        assert(theirs.contains(one));
        other_counted.lemma_filter_contains_rev(by_b, one);
        assert(by_b(one));
        lemma_contributions_of(others, replicasets, metrics, one);
        lemma_contributions_of(pods, replicasets, metrics, one);
        let pod = choose|pod: OwnedObject|
            others.contains(pod) && #[trigger] pod_contributions(
                pod,
                replicasets,
                metrics,
            ).contains(one);
        assert(pods.contains(pod));
        assert(counted.contains(one));
        assert(by_a(one));
        let own = counted_in(counted, a);
        assert(own == counted.filter(by_a));
        let k = counted.index_of(one);
        assert(own.contains(counted[k]));
        let j = own.index_of(one);
        assert(own[j].metric.sampled_at == Some(time));
    }
}

/// A workload names the pods that count for it, in order and each as often as it counts,
/// in the cluster that was asked about.
pub proof fn a_workload_names_its_pods<F>(
    numbers: NumbersView<F>,
    cluster: Seq<char>,
    pods: Seq<OwnedObject>,
    replicasets: Seq<OwnedObject>,
    metrics: Seq<ResourceMetricView<F>>,
    at: int,
)
    requires
        0 <= at < workload_metrics(numbers, cluster, pods, replicasets, metrics).len(),
    ensures
        ({
            let entry = workload_metrics(numbers, cluster, pods, replicasets, metrics)[at];
            let own = counted_in(contributions(pods, replicasets, metrics), entry);
            &&& entry.cluster == cluster
            &&& entry.namespace is Some
            &&& own.len() > 0
            &&& entry.source_pods.len() == own.len()
            &&& forall|i: int|
                0 <= i < own.len() ==> #[trigger] entry.source_pods[i] == own[i].pod
        }),
{
    let key = lemma_entry(numbers, cluster, pods, replicasets, metrics, at);
    let counted = contributions(pods, replicasets, metrics);
    workloads_are_those_counted_for(counted);
    assert(workloads_of(counted).contains(key));
}

/// A workload uses the memory and the processor time that the samples that count for it
/// tell, added up: the sum where any of them tells something and it can be held, and
/// nothing otherwise.
pub proof fn a_workload_uses_what_its_pods_use<F>(
    numbers: NumbersView<F>,
    cluster: Seq<char>,
    pods: Seq<OwnedObject>,
    replicasets: Seq<OwnedObject>,
    metrics: Seq<ResourceMetricView<F>>,
    at: int,
    memory: Seq<Option<i64>>,
    cpu: Seq<Option<F>>,
)
    requires
        0 <= at < workload_metrics(numbers, cluster, pods, replicasets, metrics).len(),
        ({
            let entry = workload_metrics(numbers, cluster, pods, replicasets, metrics)[at];
            let own = counted_in(contributions(pods, replicasets, metrics), entry);
            &&& memory.len() == own.len()
            &&& cpu.len() == own.len()
            &&& forall|i: int|
                0 <= i < own.len() ==> #[trigger] memory[i] == own[i].metric.memory_bytes
            &&& forall|i: int|
                0 <= i < own.len() ==> #[trigger] cpu[i] == own[i].metric.cpu_millicores
        }),
        forall|i: int| 0 <= i < memory.len() ==> ((#[trigger] memory[i]) matches Some(bytes) ==> bytes >= 0),
    ensures
        ({
            let entry = workload_metrics(numbers, cluster, pods, replicasets, metrics)[at];
            let told = present(cpu);
            &&& entry.memory_bytes == (if present(memory).len() > 0 && sum_of(present(memory))
                <= i64::MAX {
                Some(sum_of(present(memory)) as i64)
            } else {
                None
            })
            &&& told.len() == 0 ==> entry.cpu_millicores is None
            &&& told.len() > 0 && (forall|count: int|
                1 <= count <= told.len() ==> (numbers.classify)(
                    #[trigger] told.take(count).fold_left(numbers.zero, numbers.plus),
                ) != NumberClass::NotFinite) ==> entry.cpu_millicores == Some(
                told.fold_left(numbers.zero, numbers.plus),
            )
            &&& forall|count: int|
                1 <= count <= told.len() && (numbers.classify)(
                    #[trigger] told.take(count).fold_left(numbers.zero, numbers.plus),
                ) == NumberClass::NotFinite ==> entry.cpu_millicores is None
        }),
{
    let _ = lemma_entry(numbers, cluster, pods, replicasets, metrics, at);
    let entry = workload_metrics(numbers, cluster, pods, replicasets, metrics)[at];
    let own = counted_in(contributions(pods, replicasets, metrics), entry);
    assert(own.map_values(|one: Contribution<F>| one.metric.memory_bytes) =~= memory);
    assert(own.map_values(|one: Contribution<F>| one.metric.cpu_millicores) =~= cpu);
    numbers_add_up(numbers, present(cpu));
    let amounts = present(memory);
    assert forall|i: int| 0 <= i < amounts.len() implies #[trigger] amounts[i] >= 0 by {
        present_values_are_there(memory, amounts[i]);
        assert(amounts.contains(amounts[i]));
        let k = memory.index_of(Some(amounts[i]));
        assert(memory[k] == Some(amounts[i]));
    }
    if amounts.len() > 0 {
        bytes_add_up(amounts);
    }
}

/// Every workload that a pod counts for is reported, and each of them once, in the order
/// of the workloads.
pub proof fn every_workload_is_reported_once<F>(
    numbers: NumbersView<F>,
    cluster: Seq<char>,
    pods: Seq<OwnedObject>,
    replicasets: Seq<OwnedObject>,
    metrics: Seq<ResourceMetricView<F>>,
)
    ensures
        ({
            let counted = contributions(pods, replicasets, metrics);
            let entries = workload_metrics(numbers, cluster, pods, replicasets, metrics);
            &&& forall|i: int|
                0 <= i < counted.len() ==> exists|at: int|
                    0 <= at < entries.len() && (#[trigger] entries[at]).kind == (
                    #[trigger] counted[i]).key.kind && entries[at].namespace == Some(
                        counted[i].key.namespace,
                    ) && entries[at].name == counted[i].key.name
            &&& forall|i: int, j: int|
                0 <= i < j < entries.len() ==> key_before(
                    WorkloadKeyView {
                        kind: (#[trigger] entries[i]).kind,
                        namespace: entries[i].namespace->0,
                        name: entries[i].name,
                    },
                    WorkloadKeyView {
                        kind: (#[trigger] entries[j]).kind,
                        namespace: entries[j].namespace->0,
                        name: entries[j].name,
                    },
                )
        }),
{
    broadcast use vstd::seq_lib::group_filter_ensures;

    let counted = contributions(pods, replicasets, metrics);
    let entries = workload_metrics(numbers, cluster, pods, replicasets, metrics);
    let keys = workloads_of(counted);
    workloads_are_those_counted_for(counted);
    assert forall|i: int| 0 <= i < counted.len() implies exists|at: int|
        0 <= at < entries.len() && (#[trigger] entries[at]).kind == (
        #[trigger] counted[i]).key.kind && entries[at].namespace == Some(counted[i].key.namespace)
            && entries[at].name == counted[i].key.name by {
        let key = counted[i].key;
        assert(counted_for(counted, key).contains(counted[i]));
        assert(keys.contains(key));
        let at = keys.index_of(key);
        assert(entries[at].kind == key.kind);
    }
    assert forall|i: int, j: int| 0 <= i < j < entries.len() implies key_before(
        WorkloadKeyView {
            kind: (#[trigger] entries[i]).kind,
            namespace: entries[i].namespace->0,
            name: entries[i].name,
        },
        WorkloadKeyView {
            kind: (#[trigger] entries[j]).kind,
            namespace: entries[j].namespace->0,
            name: entries[j].name,
        },
    ) by {
        let a = lemma_entry(numbers, cluster, pods, replicasets, metrics, i);
        let b = lemma_entry(numbers, cluster, pods, replicasets, metrics, j);
        assert(key_before(keys[i], keys[j]));
    }
}

/// A sample adds its pod, its memory and its processor time to the workload, and moves its
/// time forward but never back. What it does not tell leaves the workload as it is.
pub proof fn a_sample_adds_to_its_workload<F>(
    numbers: NumbersView<F>,
    workload: WorkloadMetricView<F>,
    one: Contribution<F>,
)
    ensures
        ({
            let after = with_sample(numbers, workload, one);
            &&& after.key == workload.key
            &&& after.pods == workload.pods + seq![one.pod]
            &&& one.metric.memory_bytes is None ==> after.memory == workload.memory
            &&& one.metric.memory_bytes matches Some(bytes) ==> match workload.memory {
                Tally::Empty => after.memory == Tally::Total(bytes),
                Tally::Total(total) => if total + bytes > i64::MAX || total + bytes < i64::MIN {
                    after.memory is Overflowed
                } else {
                    after.memory matches Tally::Total(sum) && sum == total + bytes
                },
                Tally::Overflowed => after.memory is Overflowed,
            }
            &&& one.metric.cpu_millicores is None ==> after.cpu == workload.cpu
            &&& one.metric.cpu_millicores matches Some(cpu) ==> {
                let sum = match workload.cpu {
                    Tally::Total(total) => (numbers.plus)(total, cpu),
                    _ => (numbers.plus)(numbers.zero, cpu),
                };
                if workload.cpu is Overflowed || (numbers.classify)(sum) == NumberClass::NotFinite {
                    after.cpu is Overflowed
                } else {
                    after.cpu == Tally::Total(sum)
                }
            }
            &&& after.sampled_at == workload.sampled_at || after.sampled_at == one.metric.sampled_at
            &&& workload.sampled_at matches Some(time) ==> (after.sampled_at matches Some(last)
                && !text_before(last, time))
            &&& one.metric.sampled_at matches Some(time) ==> (after.sampled_at matches Some(last)
                && !text_before(last, time))
        }),
{
    assert(workload.pods.push(one.pod) =~= workload.pods + seq![one.pod]);
    if let Some(time) = workload.sampled_at {
        text_before_is_a_strict_total_order(time, time, time);
        if let Some(added) = one.metric.sampled_at {
            text_before_is_a_strict_total_order(time, added, time);
            text_before_is_a_strict_total_order(added, added, added);
        }
    } else if let Some(added) = one.metric.sampled_at {
        text_before_is_a_strict_total_order(added, added, added);
    }
}

/// A workload without samples has no pods, no time, and nothing added up.
pub proof fn a_new_workload_is_empty<F>(key: WorkloadKeyView)
    ensures
        without_samples::<F>(key).key == key,
        without_samples::<F>(key).pods.len() == 0,
        without_samples::<F>(key).sampled_at is None,
        without_samples::<F>(key).cpu is Empty,
        without_samples::<F>(key).memory is Empty,
{
}

} // verus!
