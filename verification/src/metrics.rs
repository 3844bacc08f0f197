//! Samples of the metrics API: what a pod, a node or a workload uses.

use crate::json::{a_member_is_found_by_its_name, JsonValue};
use crate::lists::{present, present_of_a_longer_part, present_values_are_there};
use crate::quantity::{
    cpu_millicores, memory_bytes, parse_cpu_millicores, parse_memory_bytes, readings_are_usable,
    NumberClass, Numbers, NumbersView, Scale,
};
use crate::text::{text_eq, text_opt, text_seq};
use vstd::prelude::*;
use vstd::string::*;

verus! {

/// A sum while it is made.
#[derive(Debug, PartialEq, Eq)]
pub enum Tally<T> {
    /// Nothing was added yet.
    Empty,
    /// The sum of what was added.
    Total(T),
    /// The sum could not be held. Nothing that is added later changes that.
    Overflowed,
}

impl<T> Tally<T> {
    /// The sum, where there is one.
    pub open spec fn total(self) -> Option<T> {
        match self {
            Tally::Total(total) => Some(total),
            _ => None,
        }
    }
}

/// A tally of numbers after one more is added.
pub open spec fn add_number<F>(numbers: NumbersView<F>, tally: Tally<F>, value: F) -> Tally<F> {
    let checked = |sum: F|
        if (numbers.classify)(sum) == NumberClass::NotFinite {
            Tally::Overflowed
        } else {
            Tally::Total(sum)
        };
    match tally {
        Tally::Empty => checked((numbers.plus)(numbers.zero, value)),
        Tally::Total(total) => checked((numbers.plus)(total, value)),
        Tally::Overflowed => Tally::Overflowed,
    }
}

/// The tally of `values`, added in order.
pub open spec fn tally_numbers<F>(numbers: NumbersView<F>, values: Seq<F>) -> Tally<F>
    decreases values.len(),
{
    if values.len() == 0 {
        Tally::Empty
    } else {
        add_number(numbers, tally_numbers(numbers, values.drop_last()), values.last())
    }
}

/// A tally of bytes after more are added.
pub open spec fn add_bytes(tally: Tally<i64>, value: i64) -> Tally<i64> {
    match tally {
        Tally::Empty => Tally::Total(value),
        Tally::Total(total) => if i64::MIN <= total + value <= i64::MAX {
            Tally::Total((total + value) as i64)
        } else {
            Tally::Overflowed
        },
        Tally::Overflowed => Tally::Overflowed,
    }
}

/// The tally of `values`, added in order.
pub open spec fn tally_bytes(values: Seq<i64>) -> Tally<i64>
    decreases values.len(),
{
    if values.len() == 0 {
        Tally::Empty
    } else {
        add_bytes(tally_bytes(values.drop_last()), values.last())
    }
}

/// The sum of `values`.
pub open spec fn sum_of(values: Seq<i64>) -> int
    decreases values.len(),
{
    if values.len() == 0 {
        0
    } else {
        sum_of(values.drop_last()) + values.last()
    }
}

/// Once a tally of bytes has overflowed, later values leave it so.
pub proof fn overflowed_bytes_stay_overflowed(values: Seq<i64>, count: int)
    requires
        0 <= count <= values.len(),
        tally_bytes(values.take(count)) is Overflowed,
    ensures
        tally_bytes(values) is Overflowed,
    decreases values.len(),
{
    if count == values.len() {
        assert(values.take(count) =~= values);
    } else {
        assert(values.drop_last().take(count) =~= values.take(count));
        overflowed_bytes_stay_overflowed(values.drop_last(), count);
    }
}

/// Once a tally of numbers has overflowed, later values leave it so.
pub proof fn overflowed_numbers_stay_overflowed<F>(
    numbers: NumbersView<F>,
    values: Seq<F>,
    count: int,
)
    requires
        0 <= count <= values.len(),
        tally_numbers(numbers, values.take(count)) is Overflowed,
    ensures
        tally_numbers(numbers, values) is Overflowed,
    decreases values.len(),
{
    if count == values.len() {
        assert(values.take(count) =~= values);
    } else {
        assert(values.drop_last().take(count) =~= values.take(count));
        overflowed_numbers_stay_overflowed(numbers, values.drop_last(), count);
    }
}

/// The tally of amounts that are not negative is their sum, wherever that can be held.
pub proof fn bytes_add_up(values: Seq<i64>)
    requires
        values.len() > 0,
        forall|i: int| 0 <= i < values.len() ==> #[trigger] values[i] >= 0,
    ensures
        sum_of(values) >= values.last(),
        tally_bytes(values) == (if sum_of(values) <= i64::MAX {
            Tally::Total(sum_of(values) as i64)
        } else {
            Tally::Overflowed
        }),
    decreases values.len(),
{
    let earlier = values.drop_last();
    assert(values[values.len() - 1] >= 0);
    if earlier.len() == 0 {
        assert(tally_bytes(earlier) is Empty);
        assert(sum_of(earlier) == 0);
    } else {
        assert forall|i: int| 0 <= i < earlier.len() implies #[trigger] earlier[i] >= 0 by {
            assert(earlier[i] == values[i]);
        }
        bytes_add_up(earlier);
        assert(earlier.last() == values[values.len() - 2]);
    }
}

/// A tally of numbers after one more is added.
pub fn tally_number<
    F: Copy,
    R: Fn(&str) -> Option<F>,
    S: Fn(F, Scale) -> F,
    C: Fn(F) -> NumberClass,
    P: Fn(F, F) -> F,
    N: Fn(F) -> u128,
>(numbers: &Numbers<F, R, S, C, P, N>, tally: Tally<F>, value: F) -> (next: Tally<F>)
    requires
        numbers.inv(),
    ensures
        next == add_number(numbers@, tally, value),
{
    let before: F = match tally {
        Tally::Empty => numbers.zero,
        Tally::Total(total) => total,
        Tally::Overflowed => {
            return Tally::Overflowed;
        },
    };
    let sum: F = (numbers.plus)(before, value);
    if (numbers.classify)(sum) == NumberClass::NotFinite {
        Tally::Overflowed
    } else {
        Tally::Total(sum)
    }
}

/// A tally of bytes after more are added.
pub fn tally_byte_count(tally: Tally<i64>, value: i64) -> (next: Tally<i64>)
    ensures
        next == add_bytes(tally, value),
{
    match tally {
        Tally::Empty => Tally::Total(value),
        Tally::Total(total) => match total.checked_add(value) {
            Some(sum) => Tally::Total(sum),
            None => Tally::Overflowed,
        },
        Tally::Overflowed => Tally::Overflowed,
    }
}

/// The sum, where there is one.
pub fn tally_total<T: Copy>(tally: &Tally<T>) -> (total: Option<T>)
    ensures
        total == tally.total(),
{
    match tally {
        Tally::Total(total) => Some(*total),
        _ => None,
    }
}

/// What one thing uses, or several pods together.
#[derive(Debug)]
pub struct ResourceMetricSummary<F> {
    pub kind: String,
    pub cluster: String,
    pub name: String,
    pub namespace: Option<String>,
    pub cpu_millicores: Option<F>,
    pub memory_bytes: Option<i64>,
    pub sampled_at: Option<String>,
    pub source_pods: Vec<String>,
}

/// What a [`ResourceMetricSummary`] says.
#[verifier::ext_equal]
pub struct ResourceMetricView<F> {
    pub kind: Seq<char>,
    pub cluster: Seq<char>,
    pub name: Seq<char>,
    pub namespace: Option<Seq<char>>,
    pub cpu_millicores: Option<F>,
    pub memory_bytes: Option<i64>,
    pub sampled_at: Option<Seq<char>>,
    pub source_pods: Seq<Seq<char>>,
}

impl<F> View for ResourceMetricSummary<F> {
    type V = ResourceMetricView<F>;

    open spec fn view(&self) -> ResourceMetricView<F> {
        ResourceMetricView {
            kind: self.kind@,
            cluster: self.cluster@,
            name: self.name@,
            namespace: text_opt(self.namespace),
            cpu_millicores: self.cpu_millicores,
            memory_bytes: self.memory_bytes,
            sampled_at: text_opt(self.sampled_at),
            source_pods: text_seq(self.source_pods@),
        }
    }
}

/// An object of the metrics API.
#[derive(Debug)]
pub struct MetricsObject {
    pub name: Option<String>,
    pub namespace: Option<String>,
    pub data: JsonValue,
}

/// The text of one usage of an object or a container.
pub open spec fn usage_text(data: JsonValue, key: Seq<char>) -> Option<Seq<char>> {
    match data.member("usage"@) {
        Some(usage) => match usage.member(key) {
            Some(value) => value.text(),
            None => None,
        },
        None => None,
    }
}

/// The text of one usage of an object or a container.
pub fn usage_value(data: &JsonValue, key: &str) -> (value: Option<String>)
    ensures
        text_opt(value) == usage_text(*data, key@),
{
    match data.get("usage") {
        Some(usage) => match usage.get(key) {
            Some(value) => match value.as_str() {
                Some(text) => Some(text.to_owned()),
                None => None,
            },
            None => None,
        },
        None => None,
    }
}

/// The processor time that an object or a container uses.
pub open spec fn cpu_usage<F>(numbers: NumbersView<F>, data: JsonValue) -> Option<F> {
    match usage_text(data, "cpu"@) {
        Some(text) => cpu_millicores(numbers, text),
        None => None,
    }
}

/// The memory that an object or a container uses.
pub open spec fn memory_usage<F>(numbers: NumbersView<F>, data: JsonValue) -> Option<i64> {
    match usage_text(data, "memory"@) {
        Some(text) => memory_bytes(numbers, text),
        None => None,
    }
}

/// The containers of an object.
pub open spec fn containers_of(data: JsonValue) -> Seq<JsonValue> {
    match data.member("containers"@) {
        Some(containers) => match containers.elements() {
            Some(elements) => elements,
            None => seq![],
        },
        None => seq![],
    }
}

/// The processor time that each of `containers` uses.
pub open spec fn cpu_usages<F>(numbers: NumbersView<F>, containers: Seq<JsonValue>) -> Seq<
    Option<F>,
> {
    containers.map_values(|container: JsonValue| cpu_usage(numbers, container))
}

/// The memory that each of `containers` uses.
pub open spec fn memory_usages<F>(numbers: NumbersView<F>, containers: Seq<JsonValue>) -> Seq<
    Option<i64>,
> {
    containers.map_values(|container: JsonValue| memory_usage(numbers, container))
}

/// The processor time that an object or a container uses.
pub fn cpu_of<
    F: Copy,
    R: Fn(&str) -> Option<F>,
    S: Fn(F, Scale) -> F,
    C: Fn(F) -> NumberClass,
    P: Fn(F, F) -> F,
    N: Fn(F) -> u128,
>(numbers: &Numbers<F, R, S, C, P, N>, data: &JsonValue) -> (usage: Option<F>)
    requires
        numbers.inv(),
    ensures
        usage == cpu_usage(numbers@, *data),
{
    match usage_value(data, "cpu") {
        Some(text) => parse_cpu_millicores(numbers, text.as_str()),
        None => None,
    }
}

/// The memory that an object or a container uses.
pub fn memory_of<
    F: Copy,
    R: Fn(&str) -> Option<F>,
    S: Fn(F, Scale) -> F,
    C: Fn(F) -> NumberClass,
    P: Fn(F, F) -> F,
    N: Fn(F) -> u128,
>(numbers: &Numbers<F, R, S, C, P, N>, data: &JsonValue) -> (usage: Option<i64>)
    requires
        numbers.inv(),
    ensures
        usage == memory_usage(numbers@, *data),
{
    match usage_value(data, "memory") {
        Some(text) => parse_memory_bytes(numbers, text.as_str()),
        None => None,
    }
}

/// The processor time that the containers of an object use together: none where no
/// container tells, or where the sum cannot be held.
pub open spec fn container_cpu<F>(numbers: NumbersView<F>, data: JsonValue) -> Option<F> {
    tally_numbers(numbers, present(cpu_usages(numbers, containers_of(data)))).total()
}

/// The memory that the containers of an object use together: none where no container
/// tells, or where the sum cannot be held.
pub open spec fn container_memory<F>(numbers: NumbersView<F>, data: JsonValue) -> Option<i64> {
    tally_bytes(present(memory_usages(numbers, containers_of(data)))).total()
}

/// What the containers of an object use together.
pub fn container_usage_totals<
    F: Copy,
    R: Fn(&str) -> Option<F>,
    S: Fn(F, Scale) -> F,
    C: Fn(F) -> NumberClass,
    P: Fn(F, F) -> F,
    N: Fn(F) -> u128,
>(numbers: &Numbers<F, R, S, C, P, N>, data: &JsonValue) -> (totals: (Option<F>, Option<i64>))
    requires
        numbers.inv(),
    ensures
        totals.0 == container_cpu(numbers@, *data),
        totals.1 == container_memory(numbers@, *data),
{
    let mut cpu: Tally<F> = Tally::Empty;
    let mut memory: Tally<i64> = Tally::Empty;
    let containers: &Vec<JsonValue> = match data.get("containers") {
        Some(value) => match value.as_array() {
            Some(containers) => containers,
            None => {
                return (None, None);
            },
        },
        None => {
            return (None, None);
        },
    };
    let ghost cpus = cpu_usages(numbers@, containers@);
    let ghost memories = memory_usages(numbers@, containers@);
    assert(containers_of(*data) == containers@);
    let mut i: usize = 0;
    while i < containers.len()
        invariant
            numbers.inv(),
            i <= containers@.len(),
            cpus == cpu_usages(numbers@, containers@),
            memories == memory_usages(numbers@, containers@),
            cpu == tally_numbers(numbers@, present(cpus.take(i as int))),
            memory == tally_bytes(present(memories.take(i as int))),
        decreases containers@.len() - i,
    {
        let container: &JsonValue = &containers[i];
        let ghost seen_cpu = present(cpus.take(i as int));
        let ghost seen_memory = present(memories.take(i as int));
        proof {
            present_of_a_longer_part(cpus, i as int);
            present_of_a_longer_part(memories, i as int);
        }
        if let Some(value) = cpu_of(numbers, container) {
            cpu = tally_number(numbers, cpu, value);
            assert(seen_cpu.push(value).drop_last() =~= seen_cpu);
        }
        if let Some(value) = memory_of(numbers, container) {
            memory = tally_byte_count(memory, value);
            assert(seen_memory.push(value).drop_last() =~= seen_memory);
        }
        i = i + 1;
    }
    assert(cpus.take(i as int) =~= cpus);
    assert(memories.take(i as int) =~= memories);
    (tally_total(&cpu), tally_total(&memory))
}

/// When an object was sampled.
pub open spec fn timestamp_of(data: JsonValue) -> Option<Seq<char>> {
    match data.member("timestamp"@) {
        Some(value) => value.text(),
        None => None,
    }
}

/// What an object of the metrics API says of a pod, which is the sum of its containers,
/// or of anything else.
pub open spec fn metric_of<F>(
    numbers: NumbersView<F>,
    cluster: Seq<char>,
    kind: Seq<char>,
    object: MetricsObject,
) -> ResourceMetricView<F> {
    let pod = kind == "Pod"@;
    ResourceMetricView {
        kind,
        cluster,
        name: match object.name {
            Some(name) => name@,
            None => seq![],
        },
        namespace: text_opt(object.namespace),
        cpu_millicores: if pod {
            container_cpu(numbers, object.data)
        } else {
            cpu_usage(numbers, object.data)
        },
        memory_bytes: if pod {
            container_memory(numbers, object.data)
        } else {
            memory_usage(numbers, object.data)
        },
        sampled_at: timestamp_of(object.data),
        source_pods: seq![],
    }
}

fn timestamp(data: &JsonValue) -> (time: Option<String>)
    ensures
        text_opt(time) == timestamp_of(*data),
{
    match data.get("timestamp") {
        Some(value) => match value.as_str() {
            Some(text) => Some(text.to_owned()),
            None => None,
        },
        None => None,
    }
}

/// What an object of the metrics API says.
pub fn metric_from_object<
    F: Copy,
    R: Fn(&str) -> Option<F>,
    S: Fn(F, Scale) -> F,
    C: Fn(F) -> NumberClass,
    P: Fn(F, F) -> F,
    N: Fn(F) -> u128,
>(
    numbers: &Numbers<F, R, S, C, P, N>,
    cluster_context: &str,
    kind: &str,
    object: &MetricsObject,
) -> (metric: ResourceMetricSummary<F>)
    requires
        numbers.inv(),
    ensures
        metric@ == metric_of(numbers@, cluster_context@, kind@, *object),
        object.name matches Some(name) ==> metric.name@ == name@,
        metric.kind@ == kind@,
        metric.cluster@ == cluster_context@,
        text_opt(metric.namespace) == text_opt(object.namespace),
{
    let (cpu_millicores, memory_bytes): (Option<F>, Option<i64>) = if text_eq(kind, "Pod") {
        container_usage_totals(numbers, &object.data)
    } else {
        (cpu_of(numbers, &object.data), memory_of(numbers, &object.data))
    };
    let metric: ResourceMetricSummary<F> = ResourceMetricSummary {
        kind: kind.to_owned(),
        cluster: cluster_context.to_owned(),
        name: match &object.name {
            Some(name) => name.clone(),
            None => String::new(),
        },
        namespace: object.namespace.clone(),
        cpu_millicores,
        memory_bytes,
        sampled_at: timestamp(&object.data),
        source_pods: Vec::new(),
    };
    assert(metric@ =~= metric_of(numbers@, cluster_context@, kind@, *object));
    metric
}

/// Numbers add up from zero, in order: the tally is the sum of all where every sum on the
/// way is finite, and has overflowed where one is not. Nothing adds up to nothing.
pub proof fn numbers_add_up<F>(numbers: NumbersView<F>, values: Seq<F>)
    ensures
        values.len() == 0 ==> tally_numbers(numbers, values).total() is None,
        values.len() > 0 && (forall|count: int|
            1 <= count <= values.len() ==> (numbers.classify)(
                #[trigger] values.take(count).fold_left(numbers.zero, numbers.plus),
            ) != NumberClass::NotFinite) ==> tally_numbers(numbers, values).total() == Some(
            values.fold_left(numbers.zero, numbers.plus),
        ),
        forall|count: int|
            1 <= count <= values.len() && (numbers.classify)(
                #[trigger] values.take(count).fold_left(numbers.zero, numbers.plus),
            ) == NumberClass::NotFinite ==> tally_numbers(numbers, values).total() is None,
    decreases values.len(),
{
    if values.len() > 0 {
        let earlier = values.drop_last();
        numbers_add_up(numbers, earlier);
        lemma_tally_numbers(numbers, earlier);
        lemma_tally_numbers(numbers, values);
        assert(values.take(values.len() as int) =~= values);
        assert forall|count: int| 1 <= count <= earlier.len() implies #[trigger] values.take(count)
            == earlier.take(count) by {
            assert(values.take(count) =~= earlier.take(count));
        }
    }
}

proof fn lemma_tally_numbers<F>(numbers: NumbersView<F>, values: Seq<F>)
    ensures
        match tally_numbers(numbers, values) {
            Tally::Empty => values.len() == 0,
            Tally::Total(total) => values.len() > 0 && total == values.fold_left(
                numbers.zero,
                numbers.plus,
            ) && (numbers.classify)(total) != NumberClass::NotFinite && forall|count: int|
                1 <= count <= values.len() ==> (numbers.classify)(
                    #[trigger] values.take(count).fold_left(numbers.zero, numbers.plus),
                ) != NumberClass::NotFinite,
            Tally::Overflowed => exists|count: int|
                1 <= count <= values.len() && (numbers.classify)(
                    #[trigger] values.take(count).fold_left(numbers.zero, numbers.plus),
                ) == NumberClass::NotFinite,
        },
    decreases values.len(),
{
    if values.len() > 0 {
        let earlier = values.drop_last();
        lemma_tally_numbers(numbers, earlier);
        assert(values.take(values.len() as int) =~= values);
        assert forall|count: int| 1 <= count <= earlier.len() implies #[trigger] values.take(count)
            == earlier.take(count) by {
            assert(values.take(count) =~= earlier.take(count));
        }
        if earlier.len() == 0 {
            assert(earlier.fold_left(numbers.zero, numbers.plus) == numbers.zero);
        }
        let sum = values.fold_left(numbers.zero, numbers.plus);
        assert(sum == (numbers.plus)(
            earlier.fold_left(numbers.zero, numbers.plus),
            values.last(),
        ));
        match tally_numbers(numbers, values) {
            Tally::Overflowed => {
                if tally_numbers(numbers, earlier) is Overflowed {
                    let count = choose|count: int|
                        1 <= count <= earlier.len() && (numbers.classify)(
                            #[trigger] earlier.take(count).fold_left(numbers.zero, numbers.plus),
                        ) == NumberClass::NotFinite;
                    assert(values.take(count) == earlier.take(count));
                } else {
                    assert(values.take(values.len() as int).fold_left(numbers.zero, numbers.plus)
                        == sum);
                }
            },
            Tally::Total(total) => {
                assert forall|count: int| 1 <= count <= values.len() implies (numbers.classify)(
                    #[trigger] values.take(count).fold_left(numbers.zero, numbers.plus),
                ) != NumberClass::NotFinite by {
                    if count <= earlier.len() {
                        assert(values.take(count) == earlier.take(count));
                    }
                }
            },
            Tally::Empty => {},
        }
    }
}

/// A usage is read where it stands: the string under its name in the object `usage`,
/// whatever else is written beside it.
pub proof fn a_usage_is_read_by_its_name(
    members: Vec<(String, JsonValue)>,
    at: int,
    usage: Vec<(String, JsonValue)>,
    of: int,
    text: String,
)
    requires
        0 <= at < members@.len(),
        members@[at].0@ == "usage"@,
        members@[at].1 == JsonValue::Object(usage),
        forall|i: int| 0 <= i < at ==> (#[trigger] members@[i]).0@ != "usage"@,
        0 <= of < usage@.len(),
        usage@[of].1 == JsonValue::Text(text),
        forall|i: int| 0 <= i < of ==> (#[trigger] usage@[i]).0@ != usage@[of].0@,
    ensures
        usage_text(JsonValue::Object(members), usage@[of].0@) == Some(text@),
{
    a_member_is_found_by_its_name(members, at);
    a_member_is_found_by_its_name(usage, of);
}

/// Nothing else is read as a usage: where there is no `usage`, or nothing under the name,
/// or no string, there is none.
pub proof fn other_values_are_no_usage(data: JsonValue, key: Seq<char>)
    ensures
        data.member("usage"@) is None ==> usage_text(data, key) is None,
        data.member("usage"@) matches Some(usage) ==> (usage.member(key) is None ==> usage_text(
            data,
            key,
        ) is None),
        data.member("usage"@) matches Some(usage) ==> (usage.member(key) matches Some(value) ==> (
        !(value is Text) ==> usage_text(data, key) is None)),
{
}

/// A sample tells of the object that it was made of: it has its name, its namespace and
/// the time that the object says, and the kind and the cluster that were asked about.
pub proof fn a_sample_tells_of_its_object<F>(
    numbers: NumbersView<F>,
    cluster: Seq<char>,
    kind: Seq<char>,
    object: MetricsObject,
)
    ensures
        ({
            let sample = metric_of(numbers, cluster, kind, object);
            &&& object.name matches Some(name) ==> sample.name == name@
            &&& object.name is None ==> sample.name.len() == 0
            &&& object.namespace matches Some(namespace) ==> sample.namespace == Some(namespace@)
            &&& object.namespace is None ==> sample.namespace is None
            &&& sample.kind == kind
            &&& sample.cluster == cluster
            &&& object.data.member("timestamp"@) matches Some(JsonValue::Text(time))
                ==> sample.sampled_at == Some(time@)
            &&& sample.sampled_at is Some ==> (object.data.member("timestamp"@) matches Some(value)
                && value is Text)
            &&& sample.source_pods.len() == 0
        }),
{
}

/// Samples of objects with different names have different names, whatever their kinds.
pub proof fn samples_keep_names_apart<F>(
    numbers: NumbersView<F>,
    cluster: Seq<char>,
    kind: Seq<char>,
    other_kind: Seq<char>,
    a: MetricsObject,
    b: MetricsObject,
)
    requires
        a.name matches Some(name) && b.name matches Some(other) && name@ != other@,
    ensures
        metric_of(numbers, cluster, kind, a).name != metric_of(numbers, cluster, other_kind, b).name,
{
}

/// What is not a pod uses what its own `usage` says: the processor time under `cpu` and
/// the memory under `memory`.
pub proof fn a_node_uses_what_it_says<F>(
    numbers: NumbersView<F>,
    cluster: Seq<char>,
    kind: Seq<char>,
    object: MetricsObject,
)
    requires
        kind != "Pod"@,
    ensures
        ({
            let sample = metric_of(numbers, cluster, kind, object);
            &&& usage_text(object.data, "cpu"@) matches Some(text) ==> sample.cpu_millicores
                == cpu_millicores(numbers, text)
            &&& usage_text(object.data, "cpu"@) is None ==> sample.cpu_millicores is None
            &&& usage_text(object.data, "memory"@) matches Some(text) ==> sample.memory_bytes
                == memory_bytes(numbers, text)
            &&& usage_text(object.data, "memory"@) is None ==> sample.memory_bytes is None
        }),
{
}

/// Whether `amounts` are what each of `containers` says that it uses.
pub open spec fn are_used_by<F>(
    numbers: NumbersView<F>,
    containers: Seq<JsonValue>,
    cpu: Seq<Option<F>>,
    memory: Seq<Option<i64>>,
) -> bool {
    &&& cpu.len() == containers.len()
    &&& memory.len() == containers.len()
    &&& forall|i: int|
        0 <= i < containers.len() ==> #[trigger] cpu[i] == (match usage_text(
            containers[i],
            "cpu"@,
        ) {
            Some(text) => cpu_millicores(numbers, text),
            None => None,
        })
    &&& forall|i: int|
        0 <= i < containers.len() ==> #[trigger] memory[i] == (match usage_text(
            containers[i],
            "memory"@,
        ) {
            Some(text) => memory_bytes(numbers, text),
            None => None,
        })
}

/// A pod uses what its containers use together: the sum of what they tell, where any of
/// them tells something and the sum can be held, and nothing otherwise. What the pod
/// says of itself does not count.
pub proof fn a_pod_uses_what_its_containers_use<F>(
    numbers: NumbersView<F>,
    cluster: Seq<char>,
    object: MetricsObject,
    containers: Vec<JsonValue>,
    cpu: Seq<Option<F>>,
    memory: Seq<Option<i64>>,
)
    requires
        object.data.member("containers"@) == Some(JsonValue::Array(containers)),
        are_used_by(numbers, containers@, cpu, memory),
    ensures
        ({
            let sample = metric_of(numbers, cluster, "Pod"@, object);
            let told = present(cpu);
            &&& sample.memory_bytes == (if present(memory).len() > 0 && sum_of(present(memory))
                <= i64::MAX {
                Some(sum_of(present(memory)) as i64)
            } else {
                None
            })
            &&& told.len() == 0 ==> sample.cpu_millicores is None
            &&& told.len() > 0 && (forall|count: int|
                1 <= count <= told.len() ==> (numbers.classify)(
                    #[trigger] told.take(count).fold_left(numbers.zero, numbers.plus),
                ) != NumberClass::NotFinite) ==> sample.cpu_millicores == Some(
                told.fold_left(numbers.zero, numbers.plus),
            )
            &&& forall|count: int|
                1 <= count <= told.len() && (numbers.classify)(
                    #[trigger] told.take(count).fold_left(numbers.zero, numbers.plus),
                ) == NumberClass::NotFinite ==> sample.cpu_millicores is None
        }),
{
    assert(containers_of(object.data) == containers@);
    assert(cpu_usages(numbers, containers@) =~= cpu);
    assert(memory_usages(numbers, containers@) =~= memory);
    numbers_add_up(numbers, present(cpu));
    let amounts = present(memory);
    assert forall|i: int| 0 <= i < amounts.len() implies #[trigger] amounts[i] >= 0 by {
        present_values_are_there(memory, amounts[i]);
        assert(amounts.contains(amounts[i]));
        let k = memory.index_of(Some(amounts[i]));
        assert(memory[k] == Some(amounts[i]));
        if let Some(text) = usage_text(containers@[k], "memory"@) {
            readings_are_usable(numbers, text);
        }
    }
    if amounts.len() > 0 {
        bytes_add_up(amounts);
    }
}

/// A pod without containers uses nothing that is known.
pub proof fn a_pod_without_containers_tells_nothing<F>(
    numbers: NumbersView<F>,
    cluster: Seq<char>,
    object: MetricsObject,
)
    requires
        object.data.member("containers"@) matches Some(value) ==> !(value is Array),
    ensures
        metric_of(numbers, cluster, "Pod"@, object).cpu_millicores is None,
        metric_of(numbers, cluster, "Pod"@, object).memory_bytes is None,
{
    let none = Seq::<JsonValue>::empty();
    assert(containers_of(object.data) == none);
    assert(cpu_usages(numbers, none) =~= seq![]);
    assert(memory_usages(numbers, none) =~= seq![]);
}

} // verus!
