use kubecove::error::{
    ApiStatus, AppError, AppErrorKind, ErrorLink, IoErrorKind, KubeError, KubeErrorCause,
};
use kubecove::json::JsonValue;
use kubecove::listing::{
    classify_metrics_error, collect_metric_objects, collect_owned_objects, has_metrics_api,
    list_scopes, metrics_api_resource, DiscoveredGroup, DiscoveredResource, MetricsListStatus,
};
use kubecove::metrics::{
    container_usage_totals, metric_from_object, usage_value, MetricsObject, ResourceMetricSummary,
    Tally,
};
use kubecove::quantity::{
    parse_cpu_millicores, parse_memory_bytes, NumberClass, Numbers, Scale,
};
use kubecove::resource_metrics::{
    metrics_diagnostics, metrics_end_line, metrics_start_line, node_metrics_resource,
    pod_metrics_resource, DiagnosticValue, MetricsAction, MetricsEvent, MetricsRequest,
    ResourceMetricsAvailabilityStatus, ResourceMetricsSummary,
};
use kubecove::validation::validate_api_resource;
use kubecove::workload::{
    add_workload_metric, aggregate_workload_metrics, controller_owner, OwnedObject, OwnerReference,
    WorkloadKey, WorkloadMetric,
};

fn read(text: &str) -> Option<f64> {
    text.parse::<f64>().ok()
}

fn scale(number: f64, by: Scale) -> f64 {
    match by {
        Scale::Times(factor) => number * factor as f64,
        Scale::Over(factor) => number * (1.0 / factor as f64),
    }
}

fn classify(number: f64) -> NumberClass {
    if !number.is_finite() {
        NumberClass::NotFinite
    } else if number < 0.0 {
        NumberClass::Negative
    } else {
        NumberClass::Usable
    }
}

fn plus(left: f64, right: f64) -> f64 {
    left + right
}

fn nearest(number: f64) -> u128 {
    number.round() as u128
}

type Floats = Numbers<
    f64,
    fn(&str) -> Option<f64>,
    fn(f64, Scale) -> f64,
    fn(f64) -> NumberClass,
    fn(f64, f64) -> f64,
    fn(f64) -> u128,
>;

fn floats() -> Floats {
    Numbers {
        zero: 0.0,
        read,
        scale,
        classify,
        plus,
        nearest,
    }
}

fn text(value: &str) -> JsonValue {
    JsonValue::Text(value.to_string())
}

fn object(members: Vec<(&str, JsonValue)>) -> JsonValue {
    JsonValue::Object(
        members
            .into_iter()
            .map(|(name, value)| (name.to_string(), value))
            .collect(),
    )
}

fn owner(kind: &str, name: &str, controller: Option<bool>) -> OwnerReference {
    OwnerReference {
        kind: kind.into(),
        name: name.into(),
        controller,
    }
}

fn owned(namespace: &str, name: &str, owners: Vec<OwnerReference>) -> OwnedObject {
    OwnedObject {
        name: Some(name.into()),
        namespace: Some(namespace.into()),
        owner_references: Some(owners),
    }
}

fn sample(
    cluster: &str,
    namespace: &str,
    name: &str,
    cpu: Option<f64>,
    memory: Option<i64>,
    time: Option<&str>,
) -> ResourceMetricSummary<f64> {
    ResourceMetricSummary {
        kind: "Pod".into(),
        cluster: cluster.into(),
        name: name.into(),
        namespace: Some(namespace.into()),
        cpu_millicores: cpu,
        memory_bytes: memory,
        sampled_at: time.map(str::to_string),
        source_pods: Vec::new(),
    }
}

fn api_error(code: u16, reason: &str, message: &str) -> KubeError {
    KubeError {
        message: message.into(),
        cause: KubeErrorCause::Api(ApiStatus {
            code,
            reason: reason.into(),
            message: message.into(),
            details: None,
        }),
        links: vec![ErrorLink::Other],
    }
}

#[test]
fn workload_overflow_stays_unavailable_after_later_valid_samples() {
    let mut pods = Vec::new();
    let mut samples = Vec::new();
    for (index, memory) in [i64::MAX, 1, 1].into_iter().enumerate() {
        let name = format!("api-{index}");
        pods.push(owned(
            "default",
            &name,
            vec![owner("StatefulSet", "api", Some(true))],
        ));
        samples.push(sample(
            "dev",
            "default",
            &name,
            Some(f64::MAX),
            Some(memory),
            None,
        ));
    }
    let workloads = aggregate_workload_metrics(&floats(), "dev", &pods, &[], &samples);
    assert_eq!(workloads.len(), 1);
    assert_eq!(workloads[0].memory_bytes, None);
    assert_eq!(workloads[0].cpu_millicores, None);
}

#[test]
fn a_sample_changes_one_workload() {
    let key = |name: &str| WorkloadKey {
        kind: "StatefulSet".into(),
        namespace: "default".into(),
        name: name.into(),
    };
    let mut workloads: Vec<WorkloadMetric<f64>> = Vec::new();
    for (workload, pod, memory, time) in [
        ("web", "web-0", 5, "2026-05-22T12:00:00Z"),
        ("api", "api-0", 7, "2026-05-22T12:00:30Z"),
        ("job", "job-0", 11, "2026-05-22T12:00:10Z"),
        ("api", "api-1", 2, "2026-05-22T12:00:20Z"),
    ] {
        let metric = sample("dev", "default", pod, Some(1.5), Some(memory), Some(time));
        add_workload_metric(&floats(), &mut workloads, key(workload), pod, &metric);
    }

    let names: Vec<&str> = workloads.iter().map(|one| one.key.name.as_str()).collect();
    assert_eq!(names, vec!["api", "job", "web"]);
    let pods: Vec<&[String]> = workloads.iter().map(|one| one.pods.as_slice()).collect();
    assert_eq!(pods[0], ["api-0", "api-1"]);
    assert_eq!(pods[1], ["job-0"]);
    assert_eq!(pods[2], ["web-0"]);
    assert!(matches!(workloads[0].memory, Tally::Total(9)));
    assert!(matches!(workloads[0].cpu, Tally::Total(cpu) if cpu == 3.0));
    assert_eq!(
        workloads[0].sampled_at.as_deref(),
        Some("2026-05-22T12:00:30Z")
    );
    assert!(matches!(workloads[1].memory, Tally::Total(11)));
    assert!(matches!(workloads[2].memory, Tally::Total(5)));
    assert!(matches!(workloads[2].cpu, Tally::Total(cpu) if cpu == 1.5));
}

#[test]
fn parses_metrics_quantities() {
    assert_eq!(parse_cpu_millicores(&floats(), "250m"), Some(250.0));
    assert_eq!(parse_cpu_millicores(&floats(), "1"), Some(1000.0));
    assert_eq!(parse_cpu_millicores(&floats(), "125000000n"), Some(125.0));
    assert_eq!(parse_memory_bytes(&floats(), "64Mi"), Some(67_108_864));
    assert_eq!(parse_memory_bytes(&floats(), "1536Ki"), Some(1_572_864));
}

#[test]
fn rejects_non_finite_negative_and_out_of_range_metrics() {
    for value in ["NaN", "inf", "-1", "1e309"] {
        assert_eq!(parse_cpu_millicores(&floats(), value), None, "{value}");
    }
    for value in [
        "NaNMi",
        "infMi",
        "-1Mi",
        "-0.0001Ki",
        "9223372036854775808Ki",
    ] {
        assert_eq!(parse_memory_bytes(&floats(), value), None, "{value}");
    }
}

#[test]
fn overflowing_container_memory_is_unavailable() {
    let data = object(vec![(
        "containers",
        JsonValue::Array(vec![
            object(vec![(
                "usage",
                object(vec![("memory", text(&i64::MAX.to_string()))]),
            )]),
            object(vec![("usage", object(vec![("memory", text("1"))]))]),
            object(vec![("usage", object(vec![("memory", text("1"))]))]),
        ]),
    )]);
    assert_eq!(container_usage_totals(&floats(), &data).1, None);
}

#[test]
fn permission_classification_uses_status_not_resource_name() {
    let error = api_error(404, "NotFound", "pod forbidden-403 not found");
    assert_eq!(
        classify_metrics_error(&error),
        MetricsListStatus::Unavailable
    );
}

fn api_pod_metrics() -> MetricsObject {
    MetricsObject {
        name: Some("api-0".into()),
        namespace: Some("payments".into()),
        data: object(vec![
            ("timestamp", text("2026-05-22T12:00:00Z")),
            (
                "containers",
                JsonValue::Array(vec![
                    object(vec![
                        ("name", text("api")),
                        (
                            "usage",
                            object(vec![("cpu", text("150m")), ("memory", text("64Mi"))]),
                        ),
                    ]),
                    object(vec![
                        ("name", text("sidecar")),
                        (
                            "usage",
                            object(vec![("cpu", text("50000000n")), ("memory", text("8Mi"))]),
                        ),
                    ]),
                ]),
            ),
        ]),
    }
}

#[test]
fn normalizes_pod_metrics_from_container_usage() {
    let resource = metrics_api_resource("PodMetrics", "pods");
    assert_eq!(resource.kind, "PodMetrics");

    let metric = metric_from_object(&floats(), "kind-dev", "Pod", &api_pod_metrics());

    assert_eq!(metric.kind, "Pod");
    assert_eq!(metric.namespace.as_deref(), Some("payments"));
    assert_eq!(metric.cpu_millicores, Some(200.0));
    assert_eq!(metric.memory_bytes, Some(75_497_472));
    assert_eq!(metric.sampled_at.as_deref(), Some("2026-05-22T12:00:00Z"));
}

#[test]
fn aggregates_workload_metrics_from_owned_pods() {
    let pod = owned(
        "payments",
        "api-0",
        vec![owner("ReplicaSet", "api-7d9", Some(true))],
    );
    let pod_metric = sample(
        "kind-dev",
        "payments",
        "api-0",
        Some(125.0),
        Some(128),
        Some("2026-05-22T12:00:00Z"),
    );

    let workloads =
        aggregate_workload_metrics(&floats(), "kind-dev", &[pod], &[], &[pod_metric]);

    assert_eq!(workloads.len(), 1);
    assert_eq!(workloads[0].kind, "ReplicaSet");
    assert_eq!(workloads[0].name, "api-7d9");
    assert_eq!(workloads[0].cpu_millicores, Some(125.0));
    assert_eq!(workloads[0].source_pods, vec!["api-0"]);
}

#[test]
fn rolls_up_replicaset_metrics_to_deployment_owner() {
    let pod = owned(
        "payments",
        "api-0",
        vec![owner("ReplicaSet", "api-7d9", Some(true))],
    );
    let replicaset = owned(
        "payments",
        "api-7d9",
        vec![owner("Deployment", "api", Some(true))],
    );
    let pod_metric = sample(
        "kind-dev",
        "payments",
        "api-0",
        Some(125.0),
        Some(128),
        Some("2026-05-22T12:00:00Z"),
    );

    let workloads = aggregate_workload_metrics(
        &floats(),
        "kind-dev",
        &[pod],
        &[replicaset],
        &[pod_metric],
    );

    assert_eq!(workloads.len(), 2);
    let deployment = workloads
        .iter()
        .find(|metric| metric.kind == "Deployment" && metric.name == "api")
        .expect("deployment rollup");
    let replicaset = workloads
        .iter()
        .find(|metric| metric.kind == "ReplicaSet" && metric.name == "api-7d9")
        .expect("replicaset rollup");
    assert_eq!(deployment.cpu_millicores, Some(125.0));
    assert_eq!(deployment.memory_bytes, Some(128));
    assert_eq!(replicaset.cpu_millicores, Some(125.0));
    assert_eq!(replicaset.memory_bytes, Some(128));
}

#[test]
fn leaves_workload_metrics_empty_when_pod_sample_has_no_usage() {
    let pod = owned(
        "payments",
        "api-0",
        vec![owner("StatefulSet", "api", Some(true))],
    );
    let pod_metric = sample(
        "kind-dev",
        "payments",
        "api-0",
        None,
        None,
        Some("2026-05-22T12:00:00Z"),
    );

    let workloads =
        aggregate_workload_metrics(&floats(), "kind-dev", &[pod], &[], &[pod_metric]);

    assert_eq!(workloads.len(), 1);
    assert_eq!(workloads[0].cpu_millicores, None);
    assert_eq!(workloads[0].memory_bytes, None);
}

#[test]
fn every_unit_of_a_quantity_is_known() {
    for (value, millicores) in [
        ("1500000n", 1.5),
        ("2500u", 2.5),
        ("0.5m", 0.5),
        (" 2 ", 2000.0),
        ("0", 0.0),
    ] {
        assert_eq!(
            parse_cpu_millicores(&floats(), value),
            Some(millicores),
            "{value}"
        );
    }
    for (value, bytes) in [
        ("1Ki", 1_024),
        ("1Mi", 1_048_576),
        ("1Gi", 1_073_741_824),
        ("1Ti", 1_099_511_627_776),
        ("1K", 1_000),
        ("1M", 1_000_000),
        ("1G", 1_000_000_000),
        ("1T", 1_000_000_000_000),
        ("0.5Ki", 512),
        ("1.0005K", 1_001),
        ("\t12\n", 12),
        ("+7", 7),
        ("9223372036854775807", i64::MAX),
    ] {
        assert_eq!(
            parse_memory_bytes(&floats(), value),
            Some(bytes),
            "{value}"
        );
    }
}

#[test]
fn whole_numbers_of_units_read_exactly() {
    let units: [(&str, i64); 9] = [
        ("", 1),
        ("K", 1_000),
        ("M", 1_000_000),
        ("G", 1_000_000_000),
        ("T", 1_000_000_000_000),
        ("Ki", 1 << 10),
        ("Mi", 1 << 20),
        ("Gi", 1 << 30),
        ("Ti", 1 << 40),
    ];
    let counts = (0..2_000_i64).chain((2_000..=1_000_000).step_by(997));
    for count in counts.chain([999_999, 1_000_000]) {
        for (suffix, bytes) in units {
            let expected = Some(count * bytes);
            assert_eq!(
                parse_memory_bytes(&floats(), &format!("{count}{suffix}")),
                expected,
                "{count}{suffix}"
            );
            assert_eq!(
                parse_memory_bytes(&floats(), &format!(" \t{count}{suffix}\n")),
                expected,
                "{count}{suffix}"
            );
        }
        assert_eq!(
            parse_memory_bytes(&floats(), &format!("{count}Mi")),
            parse_memory_bytes(&floats(), &format!("{}Ki", 1024 * count))
        );
    }
}

#[test]
fn quantities_without_a_number_are_refused() {
    for value in ["", "m", "x", "1x", "1 m m", "1mm"] {
        assert_eq!(parse_cpu_millicores(&floats(), value), None, "{value}");
    }
    for value in [
        "",
        "Ki",
        "-1",
        "1.5",
        "9223372036854775808",
        "9223372036854775807K",
        "8388608Ti",
        "1Pi",
    ] {
        assert_eq!(parse_memory_bytes(&floats(), value), None, "{value}");
    }
    assert_eq!(
        parse_memory_bytes(&floats(), "8388607Ti"),
        Some(8_388_607 * 1_099_511_627_776)
    );
}

#[test]
fn members_are_found_by_name() {
    let value = object(vec![
        ("a", text("first")),
        ("b", JsonValue::Null),
        ("a", text("second")),
    ]);
    assert_eq!(value.get("a").unwrap().as_str(), Some("first"));
    assert!(value.get("b").unwrap().as_str().is_none());
    assert!(value.get("c").is_none());
    assert!(JsonValue::Bool(true).get("a").is_none());
    assert!(value.as_array().is_none());
    assert_eq!(
        JsonValue::Array(vec![JsonValue::Number("1".into())])
            .as_array()
            .unwrap()
            .len(),
        1
    );
}

#[test]
fn usage_is_read_only_from_strings() {
    let data = object(vec![(
        "usage",
        object(vec![
            ("cpu", text("5m")),
            ("memory", JsonValue::Number("5".into())),
        ]),
    )]);
    assert_eq!(usage_value(&data, "cpu").as_deref(), Some("5m"));
    assert_eq!(usage_value(&data, "memory"), None);
    assert_eq!(usage_value(&JsonValue::Null, "cpu"), None);
}

#[test]
fn a_node_uses_what_it_says_itself() {
    let node = MetricsObject {
        name: None,
        namespace: None,
        data: object(vec![(
            "usage",
            object(vec![("cpu", text("2")), ("memory", text("1Gi"))]),
        )]),
    };
    let metric = metric_from_object(&floats(), "kind-dev", "Node", &node);
    assert_eq!(metric.name, "");
    assert_eq!(metric.namespace, None);
    assert_eq!(metric.cpu_millicores, Some(2000.0));
    assert_eq!(metric.memory_bytes, Some(1_073_741_824));
    assert_eq!(metric.sampled_at, None);
    assert_eq!(metric.cluster, "kind-dev");
    let metric = metric_from_object(&floats(), "kind-dev", "Pod", &node);
    assert_eq!(metric.cpu_millicores, None);
    assert_eq!(metric.memory_bytes, None);
}

#[test]
fn containers_without_usage_are_left_out_of_the_sum() {
    let data = object(vec![(
        "containers",
        JsonValue::Array(vec![
            object(vec![("usage", object(vec![("cpu", text("1m"))]))]),
            object(vec![("usage", object(vec![("cpu", text("bad"))]))]),
            JsonValue::Null,
            object(vec![("usage", object(vec![("cpu", text("2m"))]))]),
        ]),
    )]);
    assert_eq!(container_usage_totals(&floats(), &data), (Some(3.0), None));
    assert_eq!(
        container_usage_totals(&floats(), &object(vec![])),
        (None, None)
    );
}

#[test]
fn the_controller_owns_before_the_first() {
    let owners = vec![
        owner("A", "a", None),
        owner("B", "b", Some(false)),
        owner("C", "c", Some(true)),
        owner("D", "d", Some(true)),
    ];
    assert_eq!(controller_owner(&owners).unwrap().kind, "C");
    assert_eq!(controller_owner(&owners[..2]).unwrap().kind, "A");
    assert!(controller_owner(&[]).is_none());
}

#[test]
fn workloads_are_sorted_and_summed() {
    let pods = vec![
        owned("b", "p1", vec![owner("StatefulSet", "z", Some(true))]),
        owned("a", "p2", vec![owner("StatefulSet", "z", Some(true))]),
        owned("b", "p3", vec![owner("StatefulSet", "z", Some(true))]),
        owned("b", "p4", vec![owner("DaemonSet", "y", Some(true))]),
        owned("b", "unsampled", vec![owner("DaemonSet", "x", Some(true))]),
        owned("b", "p5", vec![]),
    ];
    let samples = vec![
        sample("c", "b", "p1", Some(1.0), Some(10), Some("2026-01-01T00:00:02Z")),
        sample("c", "a", "p2", Some(2.0), Some(20), None),
        sample("c", "b", "p3", None, Some(30), Some("2026-01-01T00:00:01Z")),
        sample("c", "b", "p4", Some(4.0), None, Some("2026-01-01T00:00:03Z")),
        sample("c", "b", "p5", Some(5.0), None, None),
    ];
    let workloads = aggregate_workload_metrics(&floats(), "c", &pods, &[], &samples);
    let names: Vec<(&str, Option<&str>, &str)> = workloads
        .iter()
        .map(|one| (one.kind.as_str(), one.namespace.as_deref(), one.name.as_str()))
        .collect();
    assert_eq!(
        names,
        vec![
            ("DaemonSet", Some("b"), "y"),
            ("StatefulSet", Some("a"), "z"),
            ("StatefulSet", Some("b"), "z"),
        ]
    );
    assert_eq!(workloads[2].cpu_millicores, Some(1.0));
    assert_eq!(workloads[2].memory_bytes, Some(40));
    assert_eq!(
        workloads[2].sampled_at.as_deref(),
        Some("2026-01-01T00:00:02Z")
    );
    assert_eq!(workloads[2].source_pods, vec!["p1", "p3"]);
    assert_eq!(workloads[1].sampled_at, None);
    assert_eq!(workloads[0].memory_bytes, None);
}

#[test]
fn the_last_sample_and_the_last_owned_replica_set_count() {
    let pods = vec![owned("n", "p", vec![owner("ReplicaSet", "r", None)])];
    let samples = vec![
        sample("c", "n", "p", Some(1.0), None, None),
        sample("c", "n", "p", Some(2.0), None, None),
    ];
    let sets = vec![
        owned("n", "r", vec![owner("Deployment", "old", Some(true))]),
        owned("n", "r", vec![owner("Deployment", "new", Some(true))]),
        owned("n", "r", vec![]),
        owned("other", "r", vec![owner("Deployment", "far", Some(true))]),
    ];
    let workloads = aggregate_workload_metrics(&floats(), "c", &pods, &sets, &samples);
    let names: Vec<&str> = workloads.iter().map(|one| one.name.as_str()).collect();
    assert_eq!(names, vec!["new", "r"]);
    assert_eq!(workloads[0].cpu_millicores, Some(2.0));
}

#[test]
fn only_replica_sets_roll_up() {
    let pods = vec![owned("n", "p", vec![owner("StatefulSet", "r", None)])];
    let samples = vec![sample("c", "n", "p", Some(1.0), None, None)];
    let sets = vec![owned("n", "r", vec![owner("Deployment", "d", Some(true))])];
    let workloads = aggregate_workload_metrics(&floats(), "c", &pods, &sets, &samples);
    assert_eq!(workloads.len(), 1);
    assert_eq!(workloads[0].kind, "StatefulSet");
}

fn group(name: &str, api_version: &str, kind: &str, operations: &[&str]) -> DiscoveredGroup {
    DiscoveredGroup {
        name: name.into(),
        resources: vec![
            DiscoveredResource {
                api_version: "other/v1".into(),
                kind: "Other".into(),
                operations: vec!["list".into()],
            },
            DiscoveredResource {
                api_version: api_version.into(),
                kind: kind.into(),
                operations: operations.iter().map(|one| one.to_string()).collect(),
            },
        ],
    }
}

fn metrics_groups() -> Vec<DiscoveredGroup> {
    vec![
        group("apps", "apps/v1", "Deployment", &["list"]),
        group(
            "metrics.k8s.io",
            "metrics.k8s.io/v1beta1",
            "PodMetrics",
            &["get", "list"],
        ),
    ]
}

#[test]
fn metrics_are_offered_by_their_group_version_kind_and_verb() {
    assert!(has_metrics_api(&metrics_groups()));
    assert!(has_metrics_api(&[group(
        "metrics.k8s.io",
        "metrics.k8s.io/v1beta1",
        "NodeMetrics",
        &["list"]
    )]));
    for refused in [
        group("metrics.k8s.io", "metrics.k8s.io/v1beta1", "PodMetrics", &["get"]),
        group("metrics.k8s.io", "metrics.k8s.io/v1beta1", "PodMetrics", &[]),
        group("metrics.k8s.io", "metrics.k8s.io/v1", "PodMetrics", &["list"]),
        group("metrics.k8s.io", "metrics.k8s.io/v1beta1", "Metrics", &["list"]),
        group("custom", "metrics.k8s.io/v1beta1", "PodMetrics", &["list"]),
        group("metrics.k8s.io", "metrics.k8s.io/v1beta1", "PodMetrics", &["LIST"]),
    ] {
        assert!(!has_metrics_api(&[refused]));
    }
    assert!(!has_metrics_api(&[]));
}

#[test]
fn resources_of_the_metrics_api_are_valid() {
    for resource in [pod_metrics_resource(), node_metrics_resource()] {
        assert!(validate_api_resource(&resource).is_ok());
        assert_eq!(resource.api_version, "metrics.k8s.io/v1beta1");
    }
    assert_eq!(pod_metrics_resource().plural, "pods");
    assert_eq!(node_metrics_resource().plural, "nodes");
    assert_eq!(node_metrics_resource().kind, "NodeMetrics");
}

#[test]
fn scopes_are_all_namespaces_or_each() {
    assert_eq!(list_scopes(&Vec::new()), vec![None]);
    assert_eq!(
        list_scopes(&vec!["b".to_string(), "a".to_string()]),
        vec![Some("b".to_string()), Some("a".to_string())]
    );
}

#[test]
fn failed_lists_of_metrics_lose_only_their_part() {
    let list = collect_metric_objects(vec![
        Ok(vec![api_pod_metrics()]),
        Err(api_error(403, "Forbidden", "no")),
        Ok(vec![api_pod_metrics(), api_pod_metrics()]),
        Err(api_error(500, "", "down")),
    ]);
    assert_eq!(list.objects.len(), 3);
    assert_eq!(
        list.failures,
        vec![MetricsListStatus::Forbidden, MetricsListStatus::Unavailable]
    );
}

#[test]
fn the_first_failed_list_of_pods_loses_all() {
    let error = collect_owned_objects(vec![
        Ok(vec![owned("n", "p", vec![])]),
        Err(api_error(404, "NotFound", "first")),
        Err(api_error(403, "Forbidden", "second")),
    ])
    .unwrap_err();
    assert_eq!(error.message, "first");
    assert_eq!(error.kind, AppErrorKind::NotFound);
    let all = collect_owned_objects(vec![
        Ok(vec![owned("n", "p", vec![])]),
        Ok(vec![owned("n", "q", vec![])]),
    ])
    .unwrap();
    assert_eq!(all.len(), 2);
    assert_eq!(all[1].name.as_deref(), Some("q"));
}

fn discovering() -> MetricsRequest {
    let (request, action) =
        MetricsRequest::start::<f64>("kind-dev".into(), vec!["payments".into()]);
    assert!(matches!(action, MetricsAction::Connect));
    let (request, action) = request.advance(&floats(), MetricsEvent::Connected);
    assert!(matches!(action, MetricsAction::Discover));
    request
}

fn listing_pod_metrics() -> MetricsRequest {
    let (request, action) =
        discovering().advance(&floats(), MetricsEvent::Discovered(metrics_groups()));
    match action {
        MetricsAction::ListPodMetrics { scopes } => {
            assert_eq!(scopes, vec![Some("payments".to_string())]);
        }
        other => panic!("{other:?}"),
    }
    request
}

fn finished(action: MetricsAction<f64>) -> ResourceMetricsSummary<f64> {
    match action {
        MetricsAction::Finish(Ok(summary)) => summary,
        other => panic!("{other:?}"),
    }
}

fn run(
    pod_metrics: Result<Vec<MetricsObject>, KubeError>,
    nodes: Result<Vec<MetricsObject>, KubeError>,
    pods: Result<Vec<OwnedObject>, KubeError>,
    replicasets: Result<Vec<OwnedObject>, KubeError>,
) -> ResourceMetricsSummary<f64> {
    let (request, action) =
        listing_pod_metrics().advance(&floats(), MetricsEvent::PodMetrics(vec![pod_metrics]));
    assert!(matches!(action, MetricsAction::ListNodeMetrics));
    let (request, action) = request.advance(&floats(), MetricsEvent::NodeMetrics(nodes));
    assert!(matches!(action, MetricsAction::ListPods { .. }));
    let (request, action) = request.advance(&floats(), MetricsEvent::Pods(vec![pods]));
    if let MetricsAction::ListReplicaSets { scopes } = action {
        assert_eq!(scopes, vec![Some("payments".to_string())]);
        let (_, action) = request.advance(&floats(), MetricsEvent::ReplicaSets(vec![replicasets]));
        finished(action)
    } else {
        finished(action)
    }
}

fn api_pod() -> OwnedObject {
    owned(
        "payments",
        "api-0",
        vec![owner("ReplicaSet", "api-7d9", Some(true))],
    )
}

fn api_replicaset() -> OwnedObject {
    owned(
        "payments",
        "api-7d9",
        vec![owner("Deployment", "api", Some(true))],
    )
}

#[test]
fn a_full_run_reports_everything() {
    let summary = run(
        Ok(vec![api_pod_metrics()]),
        Ok(vec![]),
        Ok(vec![api_pod()]),
        Ok(vec![api_replicaset()]),
    );
    assert_eq!(summary.cluster, "kind-dev");
    assert_eq!(
        summary.availability.status,
        ResourceMetricsAvailabilityStatus::Available
    );
    assert_eq!(
        summary.availability.message.as_deref(),
        Some("metrics available")
    );
    assert_eq!(summary.pods.len(), 1);
    assert!(summary.nodes.is_empty());
    let kinds: Vec<&str> = summary
        .workloads
        .iter()
        .map(|one| one.kind.as_str())
        .collect();
    assert_eq!(kinds, vec!["Deployment", "ReplicaSet"]);
    assert!(summary.warnings.is_empty());
}

#[test]
fn failures_of_lists_become_warnings_in_order() {
    let summary = run(
        Err(api_error(403, "Forbidden", "no")),
        Err(api_error(500, "", "down")),
        Err(api_error(404, "NotFound", "gone")),
        Ok(vec![]),
    );
    assert_eq!(
        summary.warnings,
        vec![
            "Pod metrics forbidden",
            "Node metrics unavailable",
            "Workload metrics unavailable: gone",
        ]
    );
    assert_eq!(
        summary.availability.status,
        ResourceMetricsAvailabilityStatus::Forbidden
    );
    assert_eq!(summary.availability.message.as_deref(), Some("forbidden"));

    let summary = run(
        Err(api_error(500, "", "down")),
        Err(api_error(403, "Forbidden", "no")),
        Ok(vec![api_pod()]),
        Err(api_error(500, "", "sets")),
    );
    assert_eq!(
        summary.warnings,
        vec![
            "Pod metrics unavailable",
            "Node metrics forbidden",
            "Workload owner rollup unavailable: sets",
        ]
    );
    assert!(summary.workloads.is_empty());
}

#[test]
fn statuses_without_samples_are_told_apart() {
    let summary = run(Ok(vec![]), Ok(vec![]), Ok(vec![]), Ok(vec![]));
    assert_eq!(
        summary.availability.status,
        ResourceMetricsAvailabilityStatus::NoSamples
    );
    assert_eq!(
        summary.availability.message.as_deref(),
        Some("no samples yet")
    );
    let summary = run(
        Ok(vec![]),
        Err(api_error(500, "", "down")),
        Ok(vec![]),
        Ok(vec![]),
    );
    assert_eq!(
        summary.availability.status,
        ResourceMetricsAvailabilityStatus::Unavailable
    );
    assert_eq!(
        summary.availability.message.as_deref(),
        Some("metrics API unavailable")
    );
}

#[test]
fn a_failed_list_of_replica_sets_keeps_direct_owners() {
    let summary = run(
        Ok(vec![api_pod_metrics()]),
        Ok(vec![]),
        Ok(vec![api_pod()]),
        Err(api_error(500, "", "sets")),
    );
    assert_eq!(summary.workloads.len(), 1);
    assert_eq!(summary.workloads[0].kind, "ReplicaSet");
}

#[test]
fn a_cluster_without_metrics_is_unavailable() {
    let (_, action) = discovering().advance(&floats(), MetricsEvent::Discovered(vec![]));
    let summary = finished(action);
    assert_eq!(
        summary.availability.status,
        ResourceMetricsAvailabilityStatus::Unavailable
    );
    assert_eq!(
        summary.availability.message.as_deref(),
        Some("metrics API unavailable")
    );
    assert!(summary.warnings.is_empty());
}

#[test]
fn a_failed_discovery_is_reported_by_its_kind() {
    let (_, action) = discovering().advance(
        &floats(),
        MetricsEvent::DiscoveryFailed(api_error(403, "Forbidden", "denied")),
    );
    let summary = finished(action);
    assert_eq!(
        summary.availability.status,
        ResourceMetricsAvailabilityStatus::Forbidden
    );
    assert_eq!(
        summary.availability.message.as_deref(),
        Some("metrics API forbidden")
    );
    assert_eq!(
        summary.warnings,
        vec!["Metrics discovery unavailable: denied"]
    );
    let (_, action) = discovering().advance(
        &floats(),
        MetricsEvent::DiscoveryFailed(KubeError {
            message: "refused".into(),
            cause: KubeErrorCause::Service,
            links: vec![ErrorLink::Io(IoErrorKind::ConnectionRefused)],
        }),
    );
    assert_eq!(
        finished(action).availability.message.as_deref(),
        Some("metrics API unavailable")
    );
}

#[test]
fn bad_namespaces_and_failed_clients_end_a_request() {
    let (_, action) =
        MetricsRequest::start::<f64>("c".into(), vec!["ok".into(), "a/b".into()]);
    match action {
        MetricsAction::Finish(Err(error)) => {
            assert_eq!(
                error.message,
                "namespace must be a valid Kubernetes path segment"
            );
            assert_eq!(error.kind, AppErrorKind::Validation);
        }
        other => panic!("{other:?}"),
    }
    let (request, _) = MetricsRequest::start::<f64>("c".into(), vec![]);
    let (request, action) = request.advance(
        &floats(),
        MetricsEvent::ConnectFailed(AppError::new("no context", AppErrorKind::Kubeconfig)),
    );
    match action {
        MetricsAction::Finish(Err(error)) => assert_eq!(error.message, "no context"),
        other => panic!("{other:?}"),
    }
    let (_, action) = request.advance(&floats(), MetricsEvent::Connected);
    assert!(matches!(action, MetricsAction::Ignore));
}

#[test]
fn requests_are_logged_and_recorded() {
    assert_eq!(
        metrics_start_line("kind-dev", 12),
        "[kubecove:backend] list_resource_metrics start context=kind-dev namespaces=12"
    );
    let summary = run(
        Ok(vec![api_pod_metrics()]),
        Ok(vec![]),
        Ok(vec![api_pod()]),
        Ok(vec![]),
    );
    let fields = metrics_diagnostics(&summary, 3);
    let shown: Vec<String> = fields
        .iter()
        .map(|field| match &field.value {
            DiagnosticValue::Text(text) => format!("{}={text}", field.name),
            DiagnosticValue::Count(count) => format!("{}={count}", field.name),
        })
        .collect();
    assert_eq!(
        shown,
        vec![
            "status=Available",
            "namespaces=3",
            "pods=1",
            "nodes=0",
            "workloads=1",
        ]
    );
    assert_eq!(
        metrics_end_line("kind-dev", &Ok(summary), 250),
        "[kubecove:backend] list_resource_metrics done context=kind-dev status=Available \
         pods=1 nodes=0 workloads=1 ms=250"
    );
    assert_eq!(
        metrics_end_line::<f64>("kind-dev", &Err(AppError::cancelled()), 7),
        "[kubecove:backend] list_resource_metrics cancelled context=kind-dev ms=7"
    );
    assert_eq!(
        metrics_end_line::<f64>(
            "kind-dev",
            &Err(AppError::new("down", AppErrorKind::UsageMetrics)),
            0
        ),
        "[kubecove:backend] list_resource_metrics error context=kind-dev kind=usage_metrics \
         message=down ms=0"
    );
}
