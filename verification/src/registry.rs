//! The exec sessions that are open, by their ids.

use crate::error::{failure, AppError, AppErrorKind, AppErrorView, ErrorLink};
use crate::exec_queue::{
    acknowledgement, answer_channel, answered_channel, queue_of, try_send, ExecCommand,
    InputBudget, InputPermit, PodExecTerminalSize, QueueRefusal, Queued, INPUT_CHUNK_BYTES,
    PENDING_INPUT_BYTES,
};
use crate::lists::{present, present_of_one_more, present_values_are_kept_in_order};
use crate::text::{
    decimal_digits, decimal_digits_read_back, decimal_text, integer_of, text_before,
    text_before_is_a_strict_total_order, text_eq, text_is_before, text_opt, text_opt_is, text_seq,
};
use chrono::Utc;
use tokio::sync::{mpsc, oneshot};
use vstd::prelude::*;
use vstd::slice::*;
use vstd::string::*;
use vstd::utf8::*;

verus! {

/// A request for an exec session that was checked.
#[derive(Debug)]
pub struct ValidatedPodExecRequest {
    pub cluster_context: String,
    pub kubeconfig_env_var: Option<String>,
    pub kubeconfig_source_key: Option<String>,
    pub kubeconfig_source_label: Option<String>,
    pub namespace: String,
    pub pod_name: String,
    pub container: Option<String>,
    pub command: Vec<String>,
    pub stdin: bool,
    pub tty: bool,
    pub terminal_size: PodExecTerminalSize,
}

/// What is told of an exec session.
#[derive(Debug)]
pub struct PodExecSessionSummary {
    pub id: String,
    pub cluster_context: String,
    pub kubeconfig_env_var: Option<String>,
    pub kubeconfig_source_key: Option<String>,
    pub kubeconfig_source_label: Option<String>,
    pub namespace: String,
    pub pod_name: String,
    pub container: Option<String>,
    pub command: Vec<String>,
    pub stdin: bool,
    pub tty: bool,
    pub terminal_cols: u16,
    pub terminal_rows: u16,
    pub status: String,
    pub started_at: String,
    pub finished_at: Option<String>,
    pub exit_code: Option<i32>,
    pub last_error: Option<String>,
}

/// What a [`PodExecSessionSummary`] says.
#[verifier::ext_equal]
pub struct SummaryView {
    pub id: Seq<char>,
    pub cluster_context: Seq<char>,
    pub kubeconfig_env_var: Option<Seq<char>>,
    pub kubeconfig_source_key: Option<Seq<char>>,
    pub kubeconfig_source_label: Option<Seq<char>>,
    pub namespace: Seq<char>,
    pub pod_name: Seq<char>,
    pub container: Option<Seq<char>>,
    pub command: Seq<Seq<char>>,
    pub stdin: bool,
    pub tty: bool,
    pub terminal_cols: u16,
    pub terminal_rows: u16,
    pub status: Seq<char>,
    pub started_at: Seq<char>,
    pub finished_at: Option<Seq<char>>,
    pub exit_code: Option<i32>,
    pub last_error: Option<Seq<char>>,
}

impl View for PodExecSessionSummary {
    type V = SummaryView;

    open spec fn view(&self) -> SummaryView {
        SummaryView {
            id: self.id@,
            cluster_context: self.cluster_context@,
            kubeconfig_env_var: text_opt(self.kubeconfig_env_var),
            kubeconfig_source_key: text_opt(self.kubeconfig_source_key),
            kubeconfig_source_label: text_opt(self.kubeconfig_source_label),
            namespace: self.namespace@,
            pod_name: self.pod_name@,
            container: text_opt(self.container),
            command: text_seq(self.command@),
            stdin: self.stdin,
            tty: self.tty,
            terminal_cols: self.terminal_cols,
            terminal_rows: self.terminal_rows,
            status: self.status@,
            started_at: self.started_at@,
            finished_at: text_opt(self.finished_at),
            exit_code: self.exit_code,
            last_error: text_opt(self.last_error),
        }
    }
}

fn copy_texts(texts: &Vec<String>) -> (copy: Vec<String>)
    ensures
        text_seq(copy@) == text_seq(texts@),
{
    let copy: Vec<String> = texts.clone();
    assert(text_seq(copy@) =~= text_seq(texts@));
    copy
}

impl Clone for PodExecSessionSummary {
    fn clone(&self) -> (copy: PodExecSessionSummary)
        ensures
            copy@ == self@,
    {
        PodExecSessionSummary {
            id: self.id.clone(),
            cluster_context: self.cluster_context.clone(),
            kubeconfig_env_var: self.kubeconfig_env_var.clone(),
            kubeconfig_source_key: self.kubeconfig_source_key.clone(),
            kubeconfig_source_label: self.kubeconfig_source_label.clone(),
            namespace: self.namespace.clone(),
            pod_name: self.pod_name.clone(),
            container: self.container.clone(),
            command: copy_texts(&self.command),
            stdin: self.stdin,
            tty: self.tty,
            terminal_cols: self.terminal_cols,
            terminal_rows: self.terminal_rows,
            status: self.status.clone(),
            started_at: self.started_at.clone(),
            finished_at: self.finished_at.clone(),
            exit_code: self.exit_code,
            last_error: self.last_error.clone(),
        }
    }
}

/// `chrono::Utc::now` gives the time, and `to_rfc3339` writes it down; of the text
/// nothing is claimed.
#[verifier::external_body]
fn now_rfc3339() -> String {
    Utc::now().to_rfc3339()
}

/// The summary of a session that starts at `started_at`.
pub open spec fn starting_summary(
    id: Seq<char>,
    request: ValidatedPodExecRequest,
    started_at: Seq<char>,
) -> SummaryView {
    SummaryView {
        id,
        cluster_context: request.cluster_context@,
        kubeconfig_env_var: text_opt(request.kubeconfig_env_var),
        kubeconfig_source_key: text_opt(request.kubeconfig_source_key),
        kubeconfig_source_label: text_opt(request.kubeconfig_source_label),
        namespace: request.namespace@,
        pod_name: request.pod_name@,
        container: text_opt(request.container),
        command: text_seq(request.command@),
        stdin: request.stdin,
        tty: request.tty,
        terminal_cols: request.terminal_size.cols,
        terminal_rows: request.terminal_size.rows,
        status: "starting"@,
        started_at,
        finished_at: None,
        exit_code: None,
        last_error: None,
    }
}

/// The summary of a session that starts at `started_at`.
pub fn session_summary_at(
    id: String,
    request: &ValidatedPodExecRequest,
    started_at: String,
) -> (summary: PodExecSessionSummary)
    ensures
        summary@ == starting_summary(id@, *request, started_at@),
{
    PodExecSessionSummary {
        id,
        cluster_context: request.cluster_context.clone(),
        kubeconfig_env_var: request.kubeconfig_env_var.clone(),
        kubeconfig_source_key: request.kubeconfig_source_key.clone(),
        kubeconfig_source_label: request.kubeconfig_source_label.clone(),
        namespace: request.namespace.clone(),
        pod_name: request.pod_name.clone(),
        container: request.container.clone(),
        command: copy_texts(&request.command),
        stdin: request.stdin,
        tty: request.tty,
        terminal_cols: request.terminal_size.cols,
        terminal_rows: request.terminal_size.rows,
        status: "starting".to_owned(),
        started_at,
        finished_at: None,
        exit_code: None,
        last_error: None,
    }
}

/// The summary of a session that starts now.
pub fn session_summary(id: String, request: &ValidatedPodExecRequest) -> (summary:
    PodExecSessionSummary)
    ensures
        summary@ == starting_summary(id@, *request, summary@.started_at),
{
    session_summary_at(id, request, now_rfc3339())
}

/// A session: what is told of it, the queue and the budget of its input, and the task
/// that runs it.
pub struct PodExecSession<H> {
    pub summary: PodExecSessionSummary,
    pub commands: mpsc::Sender<ExecCommand>,
    pub input_budget: InputBudget,
    pub handle: Option<H>,
}

/// What a [`PodExecSession`] is.
pub struct SessionView<H> {
    pub summary: SummaryView,
    pub commands: mpsc::Sender<ExecCommand>,
    pub input_budget: InputBudget,
    pub handle: Option<H>,
}

impl<H> View for PodExecSession<H> {
    type V = SessionView<H>;

    open spec fn view(&self) -> SessionView<H> {
        SessionView {
            summary: self.summary@,
            commands: self.commands,
            input_budget: self.input_budget,
            handle: self.handle,
        }
    }
}

/// The open exec sessions. `H` is what a task is known by.
pub struct PodExecRegistry<H> {
    issued: u64,
    sessions: Vec<PodExecSession<H>>,
}

/// What a [`PodExecRegistry`] holds.
#[verifier::ext_equal]
pub struct RegistryView<H> {
    /// How many ids were given out.
    pub issued: nat,
    /// The sessions by their ids.
    pub sessions: Map<Seq<char>, SessionView<H>>,
}

/// The id of a session.
pub open spec fn id_of<H>(session: PodExecSession<H>) -> Seq<char> {
    session.summary.id@
}

/// Whether one of `sessions` has the id.
pub open spec fn has_id<H>(sessions: Seq<PodExecSession<H>>, id: Seq<char>) -> bool {
    exists|i: int| 0 <= i < sessions.len() && #[trigger] id_of(sessions[i]) == id
}

/// The session with the id.
pub open spec fn with_id<H>(sessions: Seq<PodExecSession<H>>, id: Seq<char>) -> SessionView<H> {
    sessions[choose|i: int| 0 <= i < sessions.len() && #[trigger] id_of(sessions[i]) == id]@
}

/// `sessions` by their ids.
pub open spec fn by_id<H>(sessions: Seq<PodExecSession<H>>) -> Map<Seq<char>, SessionView<H>> {
    Map::new(|id: Seq<char>| has_id(sessions, id), |id: Seq<char>| with_id(sessions, id))
}

/// Whether `sessions` are in the order of their ids, each id once.
pub open spec fn sorted<H>(sessions: Seq<PodExecSession<H>>) -> bool {
    forall|i: int, j: int|
        0 <= i < j < sessions.len() ==> text_before(
            #[trigger] id_of(sessions[i]),
            #[trigger] id_of(sessions[j]),
        )
}

proof fn lemma_sorted_distinct<H>(sessions: Seq<PodExecSession<H>>, i: int, j: int)
    requires
        sorted(sessions),
        0 <= i < sessions.len(),
        0 <= j < sessions.len(),
        id_of(sessions[i]) == id_of(sessions[j]),
    ensures
        i == j,
{
    text_before_is_a_strict_total_order(
        id_of(sessions[i]),
        id_of(sessions[j]),
        id_of(sessions[i]),
    );
}

proof fn lemma_by_id_at<H>(sessions: Seq<PodExecSession<H>>, i: int)
    requires
        sorted(sessions),
        0 <= i < sessions.len(),
    ensures
        by_id(sessions).contains_key(id_of(sessions[i])),
        by_id(sessions)[id_of(sessions[i])] == sessions[i]@,
{
    let id = id_of(sessions[i]);
    assert(has_id(sessions, id));
    let j = choose|j: int| 0 <= j < sessions.len() && #[trigger] id_of(sessions[j]) == id;
    lemma_sorted_distinct(sessions, i, j);
}

/// One session is changed and keeps its id.
proof fn lemma_by_id_changed<H>(
    sessions: Seq<PodExecSession<H>>,
    i: int,
    after: Seq<PodExecSession<H>>,
)
    requires
        sorted(sessions),
        0 <= i < sessions.len(),
        after =~= sessions.update(i, after[i]),
        id_of(after[i]) == id_of(sessions[i]),
    ensures
        sorted(after),
        by_id(after) == by_id(sessions).insert(id_of(sessions[i]), after[i]@),
{
    let id = id_of(sessions[i]);
    let expected = by_id(sessions).insert(id, after[i]@);
    assert(forall|j: int|
        0 <= j < sessions.len() ==> #[trigger] id_of(after[j]) == id_of(sessions[j]));
    assert forall|other: Seq<char>| #[trigger]
        by_id(after).contains_key(other) <==> expected.contains_key(other) by {
        if has_id(sessions, other) {
            let j = choose|j: int|
                0 <= j < sessions.len() && #[trigger] id_of(sessions[j]) == other;
            assert(id_of(after[j]) == other);
        }
        if has_id(after, other) {
            let j = choose|j: int| 0 <= j < after.len() && #[trigger] id_of(after[j]) == other;
            assert(id_of(sessions[j]) == other);
        }
        assert(id_of(after[i]) == id);
    }
    assert forall|other: Seq<char>| #[trigger] by_id(after).contains_key(other) implies by_id(
        after,
    )[other] == expected[other] by {
        let j = choose|j: int| 0 <= j < after.len() && #[trigger] id_of(after[j]) == other;
        lemma_by_id_at(after, j);
        lemma_by_id_at(sessions, j);
        if j != i && other == id {
            lemma_sorted_distinct(sessions, i, j);
        }
    }
    assert(by_id(after) =~= expected);
}

proof fn lemma_by_id_insert<H>(
    sessions: Seq<PodExecSession<H>>,
    at: int,
    session: PodExecSession<H>,
)
    requires
        sorted(sessions),
        0 <= at <= sessions.len(),
        forall|j: int|
            0 <= j < at ==> text_before(#[trigger] id_of(sessions[j]), id_of(session)),
        at < sessions.len() ==> text_before(id_of(session), id_of(sessions[at])),
    ensures
        sorted(sessions.insert(at, session)),
        by_id(sessions.insert(at, session)) == by_id(sessions).insert(id_of(session), session@),
        !by_id(sessions).contains_key(id_of(session)),
{
    let after = sessions.insert(at, session);
    let fresh = id_of(session);
    assert forall|j: int| at <= j < sessions.len() implies text_before(
        fresh,
        #[trigger] id_of(sessions[j]),
    ) by {
        if j > at {
            assert(text_before(id_of(sessions[at]), id_of(sessions[j])));
            text_before_is_a_strict_total_order(fresh, id_of(sessions[at]), id_of(sessions[j]));
        }
    }
    assert forall|i: int, j: int| 0 <= i < j < after.len() implies text_before(
        #[trigger] id_of(after[i]),
        #[trigger] id_of(after[j]),
    ) by {
        if i < at && j < at {
            assert(after[i] == sessions[i] && after[j] == sessions[j]);
        } else if i < at && j == at {
            assert(after[i] == sessions[i]);
        } else if i < at {
            assert(after[i] == sessions[i] && after[j] == sessions[j - 1]);
        } else if i == at {
            assert(after[j] == sessions[j - 1]);
        } else {
            assert(after[i] == sessions[i - 1] && after[j] == sessions[j - 1]);
        }
    }
    if has_id(sessions, fresh) {
        let j = choose|j: int| 0 <= j < sessions.len() && #[trigger] id_of(sessions[j]) == fresh;
        text_before_is_a_strict_total_order(fresh, fresh, fresh);
    }
    let expected = by_id(sessions).insert(fresh, session@);
    assert(after[at] == session);
    assert forall|id: Seq<char>| #[trigger]
        by_id(after).contains_key(id) <==> expected.contains_key(id) by {
        if has_id(after, id) {
            let j = choose|j: int| 0 <= j < after.len() && #[trigger] id_of(after[j]) == id;
            if j < at {
                assert(id_of(sessions[j]) == id);
            } else if j > at {
                assert(after[j] == sessions[j - 1]);
                assert(id_of(sessions[j - 1]) == id);
            }
        }
        if has_id(sessions, id) {
            let j = choose|j: int| 0 <= j < sessions.len() && #[trigger] id_of(sessions[j]) == id;
            if j < at {
                assert(id_of(after[j]) == id);
            } else {
                assert(after[j + 1] == sessions[j]);
                assert(id_of(after[j + 1]) == id);
            }
        }
        assert(id_of(after[at]) == fresh);
    }
    assert forall|id: Seq<char>| #[trigger] by_id(after).contains_key(id) implies by_id(after)[id]
        == expected[id] by {
        let j = choose|j: int| 0 <= j < after.len() && #[trigger] id_of(after[j]) == id;
        lemma_by_id_at(after, j);
        if j < at {
            lemma_by_id_at(sessions, j);
        } else if j > at {
            assert(after[j] == sessions[j - 1]);
            lemma_by_id_at(sessions, j - 1);
        }
    }
    assert(by_id(after) =~= expected);
}

proof fn lemma_by_id_remove<H>(sessions: Seq<PodExecSession<H>>, at: int)
    requires
        sorted(sessions),
        0 <= at < sessions.len(),
    ensures
        sorted(sessions.remove(at)),
        by_id(sessions.remove(at)) == by_id(sessions).remove(id_of(sessions[at])),
{
    let after = sessions.remove(at);
    let gone = id_of(sessions[at]);
    let expected = by_id(sessions).remove(gone);
    assert forall|j: int| 0 <= j < after.len() implies #[trigger] after[j] == sessions[if j < at {
        j
    } else {
        j + 1
    }] by {}
    assert forall|i: int, j: int| 0 <= i < j < after.len() implies text_before(
        #[trigger] id_of(after[i]),
        #[trigger] id_of(after[j]),
    ) by {
        let a = if i < at {
            i
        } else {
            i + 1
        };
        let b = if j < at {
            j
        } else {
            j + 1
        };
        assert(after[i] == sessions[a] && after[j] == sessions[b]);
        assert(text_before(id_of(sessions[a]), id_of(sessions[b])));
    }
    assert forall|id: Seq<char>| #[trigger]
        by_id(after).contains_key(id) <==> expected.contains_key(id) by {
        if has_id(after, id) {
            let j = choose|j: int| 0 <= j < after.len() && #[trigger] id_of(after[j]) == id;
            let k = if j < at {
                j
            } else {
                j + 1
            };
            assert(after[j] == sessions[k]);
            assert(id_of(sessions[k]) == id);
            if id == gone {
                lemma_sorted_distinct(sessions, at, k);
            }
        }
        if has_id(sessions, id) && id != gone {
            let k = choose|k: int| 0 <= k < sessions.len() && #[trigger] id_of(sessions[k]) == id;
            let j = if k < at {
                k
            } else {
                k - 1
            };
            assert(after[j] == sessions[k]);
            assert(id_of(after[j]) == id);
        }
    }
    assert forall|id: Seq<char>| #[trigger] by_id(after).contains_key(id) implies by_id(after)[id]
        == expected[id] by {
        let j = choose|j: int| 0 <= j < after.len() && #[trigger] id_of(after[j]) == id;
        let k = if j < at {
            j
        } else {
            j + 1
        };
        assert(after[j] == sessions[k]);
        lemma_by_id_at(after, j);
        lemma_by_id_at(sessions, k);
    }
    assert(by_id(after) =~= expected);
}

impl<H> View for PodExecRegistry<H> {
    type V = RegistryView<H>;

    closed spec fn view(&self) -> RegistryView<H> {
        RegistryView { issued: self.issued as nat, sessions: by_id(self.sessions@) }
    }
}

/// The id that is given out as the one of that number.
pub open spec fn session_name(number: nat) -> Seq<char> {
    "pod-exec-"@ + decimal_digits(number)
}

/// Different numbers give different ids.
pub proof fn session_names_are_distinct(a: nat, b: nat)
    requires
        session_name(a) == session_name(b),
    ensures
        a == b,
{
    let prefix = "pod-exec-"@;
    assert(session_name(a).skip(prefix.len() as int) =~= decimal_digits(a));
    assert(session_name(b).skip(prefix.len() as int) =~= decimal_digits(b));
    decimal_digits_read_back(a);
    decimal_digits_read_back(b);
}

/// Whether every session of a registry goes by an id that was given out.
pub open spec fn all_issued<H>(registry: RegistryView<H>) -> bool {
    forall|id: Seq<char>| #[trigger]
        registry.sessions.contains_key(id) ==> exists|number: nat|
            1 <= number <= registry.issued && id == #[trigger] session_name(number)
}

/// The next id is not in use, as long as sessions go by ids that were given out.
pub proof fn the_next_id_is_fresh<H>(registry: RegistryView<H>)
    requires
        all_issued(registry),
    ensures
        !registry.sessions.contains_key(session_name(registry.issued + 1)),
{
    let next = session_name(registry.issued + 1);
    if registry.sessions.contains_key(next) {
        let number = choose|number: nat|
            1 <= number <= registry.issued && next == #[trigger] session_name(number);
        session_names_are_distinct(number, registry.issued + 1);
    }
}

/// A registry after what is told of a session was changed.
pub open spec fn with_summary<H>(
    registry: RegistryView<H>,
    id: Seq<char>,
    summary: SummaryView,
) -> RegistryView<H> {
    RegistryView {
        sessions: registry.sessions.insert(
            id,
            SessionView { summary, ..registry.sessions[id] },
        ),
        ..registry
    }
}

/// A registry after a session, if it is there, took a status.
pub open spec fn with_status<H>(
    registry: RegistryView<H>,
    id: Seq<char>,
    status: Seq<char>,
    last_error: Option<Seq<char>>,
) -> RegistryView<H> {
    if registry.sessions.contains_key(id) {
        with_summary(
            registry,
            id,
            SummaryView { status, last_error, ..registry.sessions[id].summary },
        )
    } else {
        registry
    }
}

/// A registry after a session, if it is there, took a size of its terminal.
pub open spec fn with_terminal_size<H>(
    registry: RegistryView<H>,
    id: Seq<char>,
    size: PodExecTerminalSize,
) -> RegistryView<H> {
    if registry.sessions.contains_key(id) {
        with_summary(
            registry,
            id,
            SummaryView {
                terminal_cols: size.cols,
                terminal_rows: size.rows,
                ..registry.sessions[id].summary
            },
        )
    } else {
        registry
    }
}

/// A registry after a session, if it is there, came to its end.
pub open spec fn with_exit<H>(
    registry: RegistryView<H>,
    id: Seq<char>,
    exit_code: Option<i32>,
    finished_at: Seq<char>,
) -> RegistryView<H> {
    if registry.sessions.contains_key(id) {
        with_summary(
            registry,
            id,
            SummaryView {
                status: "exited"@,
                finished_at: Some(finished_at),
                exit_code,
                ..registry.sessions[id].summary
            },
        )
    } else {
        registry
    }
}

/// Noting something of a session changes no other session, adds and removes none, and
/// keeps its id, its queue, its budget and its task.
pub proof fn marking_keeps_the_session<H>(
    registry: RegistryView<H>,
    id: Seq<char>,
    status: Seq<char>,
    last_error: Option<Seq<char>>,
    size: PodExecTerminalSize,
    exit_code: Option<i32>,
    time: Seq<char>,
    other: Seq<char>,
)
    requires
        registry.sessions.contains_key(other),
    ensures
        same_session(registry, with_status(registry, id, status, last_error), id, other),
        same_session(registry, with_terminal_size(registry, id, size), id, other),
        same_session(registry, with_exit(registry, id, exit_code, time), id, other),
        with_status(registry, id, status, last_error).sessions.dom() == registry.sessions.dom(),
        with_terminal_size(registry, id, size).sessions.dom() == registry.sessions.dom(),
        with_exit(registry, id, exit_code, time).sessions.dom() == registry.sessions.dom(),
{
    assert(with_status(registry, id, status, last_error).sessions.dom()
        =~= registry.sessions.dom());
    assert(with_terminal_size(registry, id, size).sessions.dom() =~= registry.sessions.dom());
    assert(with_exit(registry, id, exit_code, time).sessions.dom() =~= registry.sessions.dom());
}

/// Whether the session `other` is the same in both registries, where only what is told
/// of the session `id` may differ.
pub open spec fn same_session<H>(
    before: RegistryView<H>,
    after: RegistryView<H>,
    id: Seq<char>,
    other: Seq<char>,
) -> bool {
    let old_one = before.sessions[other];
    let new_one = after.sessions[other];
    &&& after.issued == before.issued
    &&& other != id ==> new_one == old_one
    &&& new_one.commands == old_one.commands
    &&& new_one.input_budget == old_one.input_budget
    &&& new_one.handle == old_one.handle
    &&& new_one.summary.id == old_one.summary.id
    &&& new_one.summary.cluster_context == old_one.summary.cluster_context
    &&& new_one.summary.stdin == old_one.summary.stdin
    &&& new_one.summary.started_at == old_one.summary.started_at
}

/// A session that was taken out stays out: what its task still notes changes nothing.
pub proof fn a_stopped_session_stays_out<H>(
    registry: RegistryView<H>,
    id: Seq<char>,
    status: Seq<char>,
    last_error: Option<Seq<char>>,
    size: PodExecTerminalSize,
    exit_code: Option<i32>,
    time: Seq<char>,
)
    ensures
        ({
            let after = RegistryView { sessions: registry.sessions.remove(id), ..registry };
            &&& with_status(after, id, status, last_error) == after
            &&& with_terminal_size(after, id, size) == after
            &&& with_exit(after, id, exit_code, time) == after
        }),
{
}

/// Whether a session belongs to one of the contexts and to the kubeconfig.
pub open spec fn in_scope(
    summary: SummaryView,
    contexts: Seq<Seq<char>>,
    source_key: Seq<char>,
) -> bool {
    contexts.contains(summary.cluster_context) && summary.kubeconfig_source_key == Some(source_key)
}

/// Whether `texts` are in order, each once.
pub open spec fn texts_in_order(texts: Seq<Seq<char>>) -> bool {
    forall|i: int, j: int|
        0 <= i < j < texts.len() ==> text_before(#[trigger] texts[i], #[trigger] texts[j])
}

/// The tasks that were noted for the sessions `ids`, in order.
pub open spec fn handles_of<H>(
    sessions: Map<Seq<char>, SessionView<H>>,
    ids: Seq<Seq<char>>,
) -> Seq<H> {
    present(ids.map_values(|id: Seq<char>| sessions[id].handle))
}

proof fn lemma_handles_of_one_more<H>(
    sessions: Map<Seq<char>, SessionView<H>>,
    ids: Seq<Seq<char>>,
    id: Seq<char>,
)
    ensures
        handles_of(sessions, ids.push(id)) == (match sessions[id].handle {
            Some(handle) => handles_of(sessions, ids).push(handle),
            None => handles_of(sessions, ids),
        }),
{
    let handle = |id: Seq<char>| sessions[id].handle;
    assert(ids.push(id).map_values(handle) =~= ids.map_values(handle).push(sessions[id].handle));
    present_of_one_more(ids.map_values(handle), sessions[id].handle);
}

spec fn keeps<H>(contexts: Seq<Seq<char>>, key: Seq<char>) -> spec_fn(PodExecSession<H>) -> bool {
    |session: PodExecSession<H>| in_scope(session.summary@, contexts, key)
}

spec fn drops<H>(contexts: Seq<Seq<char>>, key: Seq<char>) -> spec_fn(PodExecSession<H>) -> bool {
    |session: PodExecSession<H>| !in_scope(session.summary@, contexts, key)
}

proof fn lemma_filter_sorted<H>(
    sessions: Seq<PodExecSession<H>>,
    pred: spec_fn(PodExecSession<H>) -> bool,
)
    requires
        sorted(sessions),
    ensures
        sorted(sessions.filter(pred)),
    decreases sessions.len(),
{
    reveal(Seq::filter);
    if sessions.len() > 0 {
        let earlier = sessions.drop_last();
        let last = sessions.last();
        assert(forall|i: int| 0 <= i < earlier.len() ==> earlier[i] == sessions[i]);
        assert(sorted(earlier));
        lemma_filter_sorted(earlier, pred);
        let part = earlier.filter(pred);
        let all = sessions.filter(pred);
        assert forall|i: int, j: int| 0 <= i < j < all.len() implies text_before(
            #[trigger] id_of(all[i]),
            #[trigger] id_of(all[j]),
        ) by {
            if j < part.len() {
                assert(all[i] == part[i] && all[j] == part[j]);
            } else {
                assert(all[i] == part[i] && all[j] == last);
                earlier.lemma_filter_contains_rev(pred, part[i]);
                let k = earlier.index_of(part[i]);
                assert(text_before(id_of(sessions[k]), id_of(sessions[sessions.len() - 1])));
            }
        }
    }
}

proof fn lemma_filter_by_id<H>(
    sessions: Seq<PodExecSession<H>>,
    pred: spec_fn(PodExecSession<H>) -> bool,
    id: Seq<char>,
)
    requires
        sorted(sessions),
    ensures
        has_id(sessions.filter(pred), id) <==> exists|i: int|
            0 <= i < sessions.len() && #[trigger] id_of(sessions[i]) == id && pred(sessions[i]),
        has_id(sessions.filter(pred), id) ==> by_id(sessions.filter(pred))[id] == by_id(
            sessions,
        )[id],
        forall|i: int|
            0 <= i < sessions.len() && #[trigger] id_of(sessions[i]) == id ==> by_id(sessions)[id]
                == sessions[i]@,
{
    broadcast use vstd::seq_lib::group_filter_ensures;

    let part = sessions.filter(pred);
    lemma_filter_sorted(sessions, pred);
    assert forall|i: int|
        0 <= i < sessions.len() && #[trigger] id_of(sessions[i]) == id implies by_id(sessions)[id]
        == sessions[i]@ by {
        lemma_by_id_at(sessions, i);
    }
    if has_id(part, id) {
        let j = choose|j: int| 0 <= j < part.len() && #[trigger] id_of(part[j]) == id;
        lemma_by_id_at(part, j);
        assert(part.contains(part[j]));
        sessions.lemma_filter_contains_rev(pred, part[j]);
        let i = sessions.index_of(part[j]);
        assert(id_of(sessions[i]) == id);
        lemma_by_id_at(sessions, i);
    }
    if exists|i: int|
        0 <= i < sessions.len() && #[trigger] id_of(sessions[i]) == id && pred(sessions[i]) {
        let i = choose|i: int|
            0 <= i < sessions.len() && #[trigger] id_of(sessions[i]) == id && pred(sessions[i]);
        assert(part.contains(sessions[i]));
        let j = part.index_of(sessions[i]);
        assert(id_of(part[j]) == id);
    }
}

fn contains_text(texts: &Vec<String>, text: &str) -> (found: bool)
    ensures
        found == text_seq(texts@).contains(text@),
{
    let mut i: usize = 0;
    while i < texts.len()
        invariant
            i <= texts@.len(),
            forall|j: int| 0 <= j < i ==> #[trigger] text_seq(texts@)[j] != text@,
        decreases texts@.len() - i,
    {
        assert(text_seq(texts@)[i as int] == texts@[i as int]@);
        if text_eq(texts[i].as_str(), text) {
            return true;
        }
        i = i + 1;
    }
    false
}

fn is_in_scope(
    summary: &PodExecSessionSummary,
    contexts: &Vec<String>,
    source_key: &str,
) -> (inside: bool)
    ensures
        inside == in_scope(summary@, text_seq(contexts@), source_key@),
{
    contains_text(contexts, summary.cluster_context.as_str()) && text_opt_is(
        &summary.kubeconfig_source_key,
        source_key,
    )
}

/// The failure of a request for a session that is not there.
pub open spec fn session_not_found() -> AppErrorView {
    failure("exec session was not found"@, AppErrorKind::Session)
}

/// The failure of input that no room was left for.
pub open spec fn input_over_budget() -> AppErrorView {
    AppErrorView {
        source: Some(seq![ErrorLink::Other]),
        ..failure(
            "exec pending input exceeds 256 KiB; input was not accepted"@,
            AppErrorKind::Session,
        )
    }
}

/// The failure of a command that was not taken.
pub open spec fn queue_failure(refusal: QueueRefusal) -> AppErrorView {
    failure(
        match refusal {
            QueueRefusal::Full(_) => "exec input queue is full; input was not accepted"@,
            QueueRefusal::Closed(_) => "exec session is no longer accepting input"@,
        },
        AppErrorKind::Session,
    )
}

/// What a request to send a command is answered.
pub fn sending_result(outcome: Result<Queued, QueueRefusal>) -> (result: Result<Queued, AppError>)
    ensures
        match outcome {
            Ok(receipt) => result matches Ok(queued) && queued == receipt,
            Err(refusal) => result matches Err(error) && error@ == queue_failure(refusal),
        },
{
    match outcome {
        Ok(queued) => Ok(queued),
        Err(QueueRefusal::Full(_)) => Err(
            AppError::new(
                "exec input queue is full; input was not accepted",
                AppErrorKind::Session,
            ),
        ),
        Err(QueueRefusal::Closed(_)) => Err(
            AppError::new("exec session is no longer accepting input", AppErrorKind::Session),
        ),
    }
}

fn other_source() -> (links: Vec<ErrorLink>)
    ensures
        links@ == seq![ErrorLink::Other],
{
    let mut links: Vec<ErrorLink> = Vec::new();
    links.push(ErrorLink::Other);
    links
}

/// What a request to write input is answered once the session has answered, or has
/// ended without an answer.
pub fn stdin_result(response: Option<Result<(), AppError>>) -> (result: Result<(), AppError>)
    ensures
        match response {
            Some(Ok(())) => result is Ok,
            Some(Err(cause)) => result matches Err(error) && error == cause,
            None => result matches Err(error) && error@ == (AppErrorView {
                source: Some(seq![ErrorLink::Other]),
                ..failure(
                    "exec session ended before input was written"@,
                    AppErrorKind::Session,
                )
            }),
        },
{
    match response {
        Some(result) => result,
        None => Err(
            AppError::new(
                "exec session ended before input was written",
                AppErrorKind::Session,
            ).with_source(other_source()),
        ),
    }
}

/// The command that writes `data`.
pub fn stdin_command(
    data: &str,
    acknowledged: oneshot::Sender<Result<(), AppError>>,
    permit: InputPermit,
) -> (command: ExecCommand)
    ensures
        command matches ExecCommand::Stdin { data: bytes, acknowledged: answer, permit: held }
            && bytes@ == encode_utf8(data@) && answer == acknowledged && held == permit,
{
    ExecCommand::Stdin { data: slice_to_vec(data.as_bytes()), acknowledged, permit }
}

/// Input that may be queued.
pub enum StdinRequest {
    /// There is nothing to write.
    Empty,
    /// The command that writes the input, and where its answer will come.
    Queue { command: ExecCommand, response: oneshot::Receiver<Result<(), AppError>> },
}

/// How a request to write input goes on.
pub enum StdinWrite {
    /// There was nothing to write.
    Done,
    /// The input is queued, as the receipt says; the session answers when it is written.
    Waiting { queued: Queued, response: oneshot::Receiver<Result<(), AppError>> },
}

/// Whether a command writes `data`, holds as many bytes of the budget as that has, and is
/// answered where `response` waits.
pub open spec fn writes(
    command: ExecCommand,
    data: Seq<char>,
    budget: InputBudget,
    response: oneshot::Receiver<Result<(), AppError>>,
) -> bool {
    command matches ExecCommand::Stdin { data: bytes, acknowledged, permit } && bytes@
        == encode_utf8(data) && permit.taken() == bytes@.len() && permit.budget() == budget
        && answer_channel(acknowledged) == answered_channel(response)
}

/// What becomes of input, by what its budget gave for it: it is refused where that is
/// nothing, and otherwise queued with it, unless there is nothing to write.
pub fn budgeted_request(
    permit: Option<InputPermit>,
    data: &str,
    acknowledged: oneshot::Sender<Result<(), AppError>>,
    response: oneshot::Receiver<Result<(), AppError>>,
) -> (taken: Result<StdinRequest, AppError>)
    ensures
        match permit {
            None => taken matches Err(error) && error@ == input_over_budget(),
            Some(held) => if data@.len() == 0 {
                taken matches Ok(StdinRequest::Empty)
            } else {
                taken matches Ok(StdinRequest::Queue { command, response: answer }) && answer
                    == response && (command matches ExecCommand::Stdin {
                    data: bytes,
                    acknowledged: to,
                    permit: kept,
                } && bytes@ == encode_utf8(data@) && to == acknowledged && kept == held)
            },
        },
{
    let permit: InputPermit = match permit {
        Some(permit) => permit,
        None => {
            return Err(
                AppError::new(
                    "exec pending input exceeds 256 KiB; input was not accepted",
                    AppErrorKind::Session,
                ).with_source(other_source()),
            );
        },
    };
    if data.is_empty() {
        return Ok(StdinRequest::Empty);
    }
    Ok(StdinRequest::Queue { command: stdin_command(data, acknowledged, permit), response })
}

/// Why input is refused before anything is asked of the budget or the queue.
pub open spec fn input_refusal<H>(
    registry: RegistryView<H>,
    id: Seq<char>,
    data: Seq<char>,
) -> Option<AppErrorView> {
    if encode_utf8(data).len() > INPUT_CHUNK_BYTES {
        Some(failure("exec input chunks must not exceed 16 KiB"@, AppErrorKind::Validation))
    } else if !registry.sessions.contains_key(id) {
        Some(session_not_found())
    } else if !registry.sessions[id].summary.stdin {
        Some(failure("exec session stdin is disabled"@, AppErrorKind::Session))
    } else {
        None
    }
}

impl<H> PodExecRegistry<H> {
    /// The sessions are in the order of their ids.
    pub closed spec fn inv(self) -> bool {
        sorted(self.sessions@)
    }

    /// A registry without sessions.
    pub fn new() -> (registry: PodExecRegistry<H>)
        ensures
            registry.inv(),
            registry@ == (RegistryView::<H> { issued: 0, sessions: Map::empty() }),
    {
        let registry: PodExecRegistry<H> = PodExecRegistry { issued: 0, sessions: Vec::new() };
        assert(registry@.sessions =~= Map::empty());
        registry
    }

    /// Whether another id can be given out.
    pub fn has_next_id(&self) -> (more: bool)
        ensures
            more == (self@.issued < u64::MAX),
    {
        self.issued < u64::MAX
    }

    /// A new id.
    pub fn session_id(&mut self) -> (id: String)
        requires
            old(self).inv(),
            old(self)@.issued < u64::MAX,
        ensures
            final(self).inv(),
            final(self)@ == (RegistryView { issued: old(self)@.issued + 1, ..old(self)@ }),
            id@ == session_name(old(self)@.issued + 1),
    {
        self.issued = self.issued + 1;
        "pod-exec-".to_owned().concat(decimal_text(self.issued).as_str())
    }

    /// Where the session with the id is, or where it would be.
    fn position(&self, id: &str) -> (found: (usize, bool))
        requires
            self.inv(),
        ensures
            found.0 <= self.sessions@.len(),
            found.1 == self@.sessions.contains_key(id@),
            found.1 ==> found.0 < self.sessions@.len() && id_of(self.sessions@[found.0 as int])
                == id@ && self@.sessions[id@] == self.sessions@[found.0 as int]@,
            !found.1 ==> (forall|j: int|
                0 <= j < found.0 ==> text_before(#[trigger] id_of(self.sessions@[j]), id@)) && (
            found.0 < self.sessions@.len() ==> text_before(
                id@,
                id_of(self.sessions@[found.0 as int]),
            )),
    {
        let mut at: usize = 0;
        while at < self.sessions.len() && text_is_before(
            self.sessions[at].summary.id.as_str(),
            id,
        )
            invariant
                at <= self.sessions@.len(),
                forall|j: int|
                    0 <= j < at ==> text_before(#[trigger] id_of(self.sessions@[j]), id@),
            decreases self.sessions@.len() - at,
        {
            assert(text_before(id_of(self.sessions@[at as int]), id@));
            at = at + 1;
        }
        if at < self.sessions.len() && text_eq(self.sessions[at].summary.id.as_str(), id) {
            proof {
                lemma_by_id_at(self.sessions@, at as int);
            }
            return (at, true);
        }
        proof {
            if at < self.sessions@.len() {
                text_before_is_a_strict_total_order(id_of(self.sessions@[at as int]), id@, id@);
            }
            if has_id(self.sessions@, id@) {
                let j = choose|j: int|
                    0 <= j < self.sessions@.len() && #[trigger] id_of(self.sessions@[j]) == id@;
                text_before_is_a_strict_total_order(id@, id@, id@);
                if j >= at {
                    assert(text_before(id@, id_of(self.sessions@[at as int])));
                    if j > at {
                        text_before_is_a_strict_total_order(
                            id@,
                            id_of(self.sessions@[at as int]),
                            id@,
                        );
                    }
                }
            }
        }
        (at, false)
    }

    /// Adds a session with an empty queue of input and a full budget. It takes the place
    /// of one with the same id.
    pub fn insert(
        &mut self,
        summary: PodExecSessionSummary,
        commands: mpsc::Sender<ExecCommand>,
    ) -> (inserted: PodExecSessionSummary)
        requires
            old(self).inv(),
        ensures
            final(self).inv(),
            inserted@ == summary@,
            final(self)@ == (RegistryView {
                sessions: old(self)@.sessions.insert(
                    summary@.id,
                    final(self)@.sessions[summary@.id],
                ),
                ..old(self)@
            }),
            final(self)@.sessions[summary@.id].summary == summary@,
            final(self)@.sessions[summary@.id].commands == commands,
            final(self)@.sessions[summary@.id].input_budget.limit() == PENDING_INPUT_BYTES,
            final(self)@.sessions[summary@.id].handle is None,
    {
        let inserted: PodExecSessionSummary = summary.clone();
        let (at, found): (usize, bool) = self.position(summary.id.as_str());
        let session: PodExecSession<H> = PodExecSession {
            summary,
            commands,
            input_budget: InputBudget::new(PENDING_INPUT_BYTES),
            handle: None,
        };
        if found {
            let ghost sessions = self.sessions@;
            self.sessions[at] = session;
            proof {
                lemma_by_id_changed(sessions, at as int, self.sessions@);
            }
        } else {
            proof {
                lemma_by_id_insert(self.sessions@, at as int, session);
            }
            self.sessions.insert(at, session);
        }
        inserted
    }

    /// Notes the task of a session. Where the session is gone already the task comes
    /// back, and is to be aborted.
    pub fn set_handle(&mut self, session_id: &str, handle: H) -> (orphan: Option<H>)
        requires
            old(self).inv(),
        ensures
            final(self).inv(),
            old(self)@.sessions.contains_key(session_id@) ==> orphan is None && final(self)@ == (
            RegistryView {
                sessions: old(self)@.sessions.insert(
                    session_id@,
                    SessionView {
                        handle: Some(handle),
                        ..old(self)@.sessions[session_id@]
                    },
                ),
                ..old(self)@
            }),
            !old(self)@.sessions.contains_key(session_id@) ==> orphan == Some(handle)
                && final(self)@ == old(self)@,
    {
        let (at, found): (usize, bool) = self.position(session_id);
        if !found {
            return Some(handle);
        }
        let ghost sessions = self.sessions@;
        self.sessions[at].handle = Some(handle);
        proof {
            lemma_by_id_changed(sessions, at as int, self.sessions@);
        }
        None
    }

    /// The summaries of all sessions, in the order of their ids.
    pub fn list(&self) -> (summaries: Vec<PodExecSessionSummary>)
        requires
            self.inv(),
        ensures
            forall|i: int, j: int|
                0 <= i < j < summaries@.len() ==> text_before(
                    (#[trigger] summaries@[i])@.id,
                    (#[trigger] summaries@[j])@.id,
                ),
            forall|i: int|
                0 <= i < summaries@.len() ==> self@.sessions.contains_key(
                    (#[trigger] summaries@[i])@.id,
                ) && self@.sessions[summaries@[i]@.id].summary == summaries@[i]@,
            forall|id: Seq<char>| #[trigger]
                self@.sessions.contains_key(id) ==> exists|i: int|
                    0 <= i < summaries@.len() && (#[trigger] summaries@[i])@.id == id,
    {
        let mut summaries: Vec<PodExecSessionSummary> = Vec::new();
        let mut at: usize = 0;
        while at < self.sessions.len()
            invariant
                self.inv(),
                at <= self.sessions@.len(),
                summaries@.len() == at,
                forall|i: int|
                    0 <= i < at ==> (#[trigger] summaries@[i])@ == self.sessions@[i].summary@,
            decreases self.sessions@.len() - at,
        {
            summaries.push(self.sessions[at].summary.clone());
            at = at + 1;
        }
        proof {
            assert forall|i: int, j: int| 0 <= i < j < summaries@.len() implies text_before(
                (#[trigger] summaries@[i])@.id,
                (#[trigger] summaries@[j])@.id,
            ) by {
                assert(text_before(id_of(self.sessions@[i]), id_of(self.sessions@[j])));
            }
            assert forall|i: int| 0 <= i < summaries@.len() implies self@.sessions.contains_key(
                (#[trigger] summaries@[i])@.id,
            ) && self@.sessions[summaries@[i]@.id].summary == summaries@[i]@ by {
                lemma_by_id_at(self.sessions@, i);
            }
            assert forall|id: Seq<char>| #[trigger] self@.sessions.contains_key(id) implies exists|
                i: int,
            |
                0 <= i < summaries@.len() && (#[trigger] summaries@[i])@.id == id by {
                let i = choose|i: int|
                    0 <= i < self.sessions@.len() && #[trigger] id_of(self.sessions@[i]) == id;
                assert(summaries@[i]@.id == id);
            }
        }
        summaries
    }

    /// Gives a session, if it is there, a status.
    pub fn mark_status(&mut self, session_id: &str, status: &str, last_error: Option<String>)
        requires
            old(self).inv(),
        ensures
            final(self).inv(),
            final(self)@ == with_status(old(self)@, session_id@, status@, text_opt(last_error)),
    {
        let (at, found): (usize, bool) = self.position(session_id);
        if found {
            let ghost sessions = self.sessions@;
            self.sessions[at].summary.status = status.to_owned();
            self.sessions[at].summary.last_error = last_error;
            proof {
                lemma_by_id_changed(sessions, at as int, self.sessions@);
            }
        }
    }

    /// Notes that a session runs.
    pub fn mark_running(&mut self, session_id: &str)
        requires
            old(self).inv(),
        ensures
            final(self).inv(),
            final(self)@ == with_status(old(self)@, session_id@, "running"@, None),
    {
        self.mark_status(session_id, "running", None);
    }

    /// Notes that a session failed.
    pub fn mark_error(&mut self, session_id: &str, message: String)
        requires
            old(self).inv(),
        ensures
            final(self).inv(),
            final(self)@ == with_status(old(self)@, session_id@, "error"@, Some(message@)),
    {
        self.mark_status(session_id, "error", Some(message));
    }

    /// Notes the size of the terminal of a session.
    pub fn mark_terminal_size(&mut self, session_id: &str, size: PodExecTerminalSize)
        requires
            old(self).inv(),
        ensures
            final(self).inv(),
            final(self)@ == with_terminal_size(old(self)@, session_id@, size),
    {
        let (at, found): (usize, bool) = self.position(session_id);
        if found {
            let ghost sessions = self.sessions@;
            self.sessions[at].summary.terminal_cols = size.cols;
            self.sessions[at].summary.terminal_rows = size.rows;
            proof {
                lemma_by_id_changed(sessions, at as int, self.sessions@);
            }
        }
    }

    /// Notes that a session came to its end at `finished_at`.
    pub fn mark_exited_at(&mut self, session_id: &str, exit_code: Option<i32>, finished_at: String)
        requires
            old(self).inv(),
        ensures
            final(self).inv(),
            final(self)@ == with_exit(old(self)@, session_id@, exit_code, finished_at@),
    {
        let (at, found): (usize, bool) = self.position(session_id);
        if found {
            let ghost sessions = self.sessions@;
            self.sessions[at].summary.status = "exited".to_owned();
            self.sessions[at].summary.finished_at = Some(finished_at);
            self.sessions[at].summary.exit_code = exit_code;
            proof {
                lemma_by_id_changed(sessions, at as int, self.sessions@);
            }
        }
    }

    /// Notes that a session comes to its end now.
    pub fn mark_exited(&mut self, session_id: &str, exit_code: Option<i32>)
        requires
            old(self).inv(),
        ensures
            final(self).inv(),
            exists|finished_at: Seq<char>|
                final(self)@ == #[trigger] with_exit(
                    old(self)@,
                    session_id@,
                    exit_code,
                    finished_at,
                ),
    {
        self.mark_exited_at(session_id, exit_code, now_rfc3339());
    }

    /// Queues a command for a session. A session that is not there refuses it; whether
    /// the queue of one that is there takes it depends on its task.
    pub fn send_command(&self, session_id: &str, command: ExecCommand) -> (sent: Result<
        Queued,
        AppError,
    >)
        requires
            self.inv(),
        ensures
            !self@.sessions.contains_key(session_id@) ==> (sent matches Err(error) && error@
                == session_not_found()),
            self@.sessions.contains_key(session_id@) ==> (sent matches Ok(queued) ==> queued.queue()
                == queue_of(self@.sessions[session_id@].commands) && queued.command() == command),
            self@.sessions.contains_key(session_id@) ==> (sent matches Err(error) ==> error@
                == queue_failure(QueueRefusal::Full(command)) || error@ == queue_failure(
                QueueRefusal::Closed(command),
            )),
    {
        let (at, found): (usize, bool) = self.position(session_id);
        if !found {
            return Err(AppError::new("exec session was not found", AppErrorKind::Session));
        }
        sending_result(try_send(&self.sessions[at].commands, command))
    }

    /// Takes input for a session into its budget. What is too long, or for a session that
    /// is not there or takes no input, is refused; whether there is room for the rest
    /// depends on what waits already, but nothing always has room.
    pub fn stdin_request(&self, session_id: &str, data: &str) -> (taken: Result<
        StdinRequest,
        AppError,
    >)
        requires
            self.inv(),
        ensures
            match input_refusal(self@, session_id@, data@) {
                Some(refusal) => taken matches Err(error) && error@ == refusal,
                None => if data@.len() == 0 {
                    taken matches Ok(StdinRequest::Empty)
                } else {
                    match taken {
                        Ok(request) => request matches StdinRequest::Queue { command, response }
                            && writes(
                            command,
                            data@,
                            self@.sessions[session_id@].input_budget,
                            response,
                        ),
                        Err(error) => error@ == input_over_budget(),
                    }
                },
            },
    {
        broadcast use vstd::utf8::group_utf8_lib;

        let size: usize = data.as_bytes().len();
        if size > INPUT_CHUNK_BYTES {
            return Err(
                AppError::new(
                    "exec input chunks must not exceed 16 KiB",
                    AppErrorKind::Validation,
                ),
            );
        }
        let (at, found): (usize, bool) = self.position(session_id);
        if !found {
            return Err(AppError::new("exec session was not found", AppErrorKind::Session));
        }
        let session: &PodExecSession<H> = &self.sessions[at];
        if !session.summary.stdin {
            return Err(AppError::new("exec session stdin is disabled", AppErrorKind::Session));
        }
        proof {
            lemma_empty_text(data@);
        }
        let permit: Option<InputPermit> = session.input_budget.take(size as u32);
        let (acknowledged, response) = acknowledgement();
        budgeted_request(permit, data, acknowledged, response)
    }

    /// Queues input for a session, as far as there is room for it and its queue takes it.
    pub fn write_stdin(&self, session_id: &str, data: String) -> (written: Result<
        StdinWrite,
        AppError,
    >)
        requires
            self.inv(),
        ensures
            match input_refusal(self@, session_id@, data@) {
                Some(refusal) => written matches Err(error) && error@ == refusal,
                None => if data@.len() == 0 {
                    written matches Ok(StdinWrite::Done)
                } else {
                    match written {
                        Ok(going) => going matches StdinWrite::Waiting { queued, response }
                            && queued.queue() == queue_of(
                            self@.sessions[session_id@].commands,
                        ) && writes(
                            queued.command(),
                            data@,
                            self@.sessions[session_id@].input_budget,
                            response,
                        ),
                        Err(error) => error@ == input_over_budget() || exists|
                            refusal: QueueRefusal,
                        | error@ == #[trigger] queue_failure(refusal),
                    }
                },
            },
    {
        match self.stdin_request(session_id, data.as_str()) {
            Ok(StdinRequest::Empty) => Ok(StdinWrite::Done),
            Ok(StdinRequest::Queue { command, response }) => {
                match self.send_command(session_id, command) {
                    Ok(queued) => Ok(StdinWrite::Waiting { queued, response }),
                    Err(error) => Err(error),
                }
            },
            Err(error) => Err(error),
        }
    }

    /// Takes a session out. Its task, if one was noted, comes back and is to be
    /// aborted.
    pub fn stop(&mut self, session_id: &str) -> (stopped: (bool, Option<H>))
        requires
            old(self).inv(),
        ensures
            final(self).inv(),
            stopped.0 == old(self)@.sessions.contains_key(session_id@),
            stopped.1 == (if stopped.0 {
                old(self)@.sessions[session_id@].handle
            } else {
                None
            }),
            final(self)@ == (RegistryView {
                sessions: old(self)@.sessions.remove(session_id@),
                ..old(self)@
            }),
    {
        let (at, found): (usize, bool) = self.position(session_id);
        if !found {
            assert(self@.sessions.remove(session_id@) =~= self@.sessions);
            return (false, None);
        }
        proof {
            lemma_by_id_remove(self.sessions@, at as int);
        }
        let session: PodExecSession<H> = self.sessions.remove(at);
        (true, session.handle)
    }

    /// Takes out every session that does not belong to one of the contexts and to the
    /// kubeconfig. Their ids come back in order, and their tasks, which are to be
    /// aborted.
    pub fn stop_outside_scope(
        &mut self,
        allowed_cluster_contexts: &Vec<String>,
        kubeconfig_source_key: &str,
    ) -> (stopped: (Vec<String>, Vec<H>))
        requires
            old(self).inv(),
        ensures
            final(self).inv(),
            final(self)@.issued == old(self)@.issued,
            final(self)@.sessions == old(self)@.sessions.restrict(
                Set::new(
                    |id: Seq<char>|
                        in_scope(
                            old(self)@.sessions[id].summary,
                            text_seq(allowed_cluster_contexts@),
                            kubeconfig_source_key@,
                        ),
                ),
            ),
            texts_in_order(text_seq(stopped.0@)),
            forall|id: Seq<char>| #[trigger]
                text_seq(stopped.0@).contains(id) <==> old(self)@.sessions.contains_key(id)
                    && !in_scope(
                    old(self)@.sessions[id].summary,
                    text_seq(allowed_cluster_contexts@),
                    kubeconfig_source_key@,
                ),
            stopped.1@ == handles_of(old(self)@.sessions, text_seq(stopped.0@)),
    {
        let ghost contexts = text_seq(allowed_cluster_contexts@);
        let ghost key = kubeconfig_source_key@;
        let mut sessions: Vec<PodExecSession<H>> = Vec::new();
        sessions.append(&mut self.sessions);
        let ghost all = sessions@;
        assert(all =~= old(self).sessions@);
        let mut kept: Vec<PodExecSession<H>> = Vec::new();
        let mut stopped: Vec<String> = Vec::new();
        let mut handles: Vec<H> = Vec::new();
        assert(handles@ =~= handles_of(by_id(all), text_seq(stopped@)));
        for session in it: sessions
            invariant
                it.seq() == all,
                sorted(all),
                contexts == text_seq(allowed_cluster_contexts@),
                key == kubeconfig_source_key@,
                kept@ == all.take(it.index()).filter(keeps(contexts, key)),
                text_seq(stopped@) == all.take(it.index()).filter(drops(contexts, key)).map_values(
                    |session: PodExecSession<H>| id_of(session),
                ),
                handles@ == handles_of(by_id(all), text_seq(stopped@)),
        {
            let ghost at = it.index();
            let ghost earlier = text_seq(stopped@);
            proof {
                reveal(Seq::filter);
                assert(all.take(at + 1).drop_last() =~= all.take(at));
                assert(all.take(at + 1).last() == session);
                lemma_by_id_at(all, at);
            }
            if is_in_scope(&session.summary, allowed_cluster_contexts, kubeconfig_source_key) {
                kept.push(session);
            } else {
                let ghost id = id_of(session);
                stopped.push(session.summary.id);
                assert(text_seq(stopped@) =~= earlier.push(id));
                proof {
                    lemma_handles_of_one_more(by_id(all), earlier, id);
                    let ids = |session: PodExecSession<H>| id_of(session);
                    let gone = all.take(at).filter(drops(contexts, key));
                    assert(gone.push(session).map_values(ids) =~= gone.map_values(ids).push(id));
                }
                if let Some(handle) = session.handle {
                    handles.push(handle);
                }
            }
        }
        self.sessions = kept;
        proof {
            assert(all.take(all.len() as int) =~= all);
            lemma_filter_sorted(all, keeps(contexts, key));
            lemma_filter_sorted(all, drops(contexts, key));
            let expected = by_id(all).restrict(
                Set::new(|id: Seq<char>| in_scope(by_id(all)[id].summary, contexts, key)),
            );
            assert forall|id: Seq<char>| #[trigger]
                by_id(kept@).contains_key(id) <==> expected.contains_key(id) by {
                lemma_filter_by_id(all, keeps(contexts, key), id);
            }
            assert forall|id: Seq<char>| #[trigger] by_id(kept@).contains_key(id) implies by_id(
                kept@,
            )[id] == expected[id] by {
                lemma_filter_by_id(all, keeps(contexts, key), id);
            }
            assert(by_id(kept@) =~= expected);
            let gone = all.filter(drops(contexts, key));
            let ids = gone.map_values(|session: PodExecSession<H>| id_of(session));
            assert forall|i: int, j: int| 0 <= i < j < ids.len() implies text_before(
                #[trigger] ids[i],
                #[trigger] ids[j],
            ) by {
                assert(text_before(id_of(gone[i]), id_of(gone[j])));
            }
            assert forall|id: Seq<char>| #[trigger] ids.contains(id) <==> by_id(all).contains_key(
                id,
            ) && !in_scope(by_id(all)[id].summary, contexts, key) by {
                lemma_filter_by_id(all, drops(contexts, key), id);
                if ids.contains(id) {
                    let i = ids.index_of(id);
                    assert(id_of(gone[i]) == id);
                    assert(has_id(gone, id));
                }
                if has_id(gone, id) {
                    let i = choose|i: int|
                        0 <= i < gone.len() && #[trigger] id_of(gone[i]) == id;
                    assert(ids[i] == id);
                }
            }
        }
        (stopped, handles)
    }
}

proof fn lemma_empty_text(text: Seq<char>)
    ensures
        encode_utf8(text).len() == 0 <==> text.len() == 0,
{
    encode_utf8_decode_utf8(text);
    if text.len() == 0 {
        assert(text =~= seq![]);
    }
    if encode_utf8(text).len() == 0 {
        assert(encode_utf8(text) =~= seq![]);
        assert(decode_utf8(seq![]) =~= seq![]);
    }
}

/// What is told of a new session is what its request asks for, field by field; it is
/// starting, and has not ended or failed.
pub proof fn a_new_session_is_told_of_as_requested(
    id: Seq<char>,
    request: ValidatedPodExecRequest,
    started_at: Seq<char>,
)
    ensures
        ({
            let summary = starting_summary(id, request, started_at);
            &&& summary.id == id
            &&& summary.cluster_context == request.cluster_context@
            &&& summary.kubeconfig_env_var == text_opt(request.kubeconfig_env_var)
            &&& summary.kubeconfig_source_key == text_opt(request.kubeconfig_source_key)
            &&& summary.kubeconfig_source_label == text_opt(request.kubeconfig_source_label)
            &&& summary.namespace == request.namespace@
            &&& summary.pod_name == request.pod_name@
            &&& summary.container == text_opt(request.container)
            &&& summary.command.len() == request.command@.len()
            &&& forall|i: int|
                0 <= i < request.command@.len() ==> #[trigger] summary.command[i]
                    == request.command@[i]@
            &&& summary.stdin == request.stdin
            &&& summary.tty == request.tty
            &&& summary.terminal_cols == request.terminal_size.cols
            &&& summary.terminal_rows == request.terminal_size.rows
            &&& summary.started_at == started_at
            &&& summary.status == "starting"@
            &&& summary.finished_at is None
            &&& summary.exit_code is None
            &&& summary.last_error is None
        }),
{
}

/// Whether two summaries say the same of what a session was opened with.
pub open spec fn same_origin(a: SummaryView, b: SummaryView) -> bool {
    &&& a.id == b.id
    &&& a.cluster_context == b.cluster_context
    &&& a.kubeconfig_env_var == b.kubeconfig_env_var
    &&& a.kubeconfig_source_key == b.kubeconfig_source_key
    &&& a.kubeconfig_source_label == b.kubeconfig_source_label
    &&& a.namespace == b.namespace
    &&& a.pod_name == b.pod_name
    &&& a.container == b.container
    &&& a.command == b.command
    &&& a.stdin == b.stdin
    &&& a.tty == b.tty
    &&& a.started_at == b.started_at
}

/// What is noted of a session is told of it afterwards, and what is not noted stays as it
/// was told: a status comes with its last error, a size with its columns and rows, and an
/// end with its code and its time.
pub proof fn what_is_noted_is_told<H>(
    registry: RegistryView<H>,
    id: Seq<char>,
    status: Seq<char>,
    last_error: Option<Seq<char>>,
    size: PodExecTerminalSize,
    exit_code: Option<i32>,
    time: Seq<char>,
)
    requires
        registry.sessions.contains_key(id),
    ensures
        ({
            let before = registry.sessions[id].summary;
            let marked = with_status(registry, id, status, last_error).sessions[id].summary;
            let sized = with_terminal_size(registry, id, size).sessions[id].summary;
            let exited = with_exit(registry, id, exit_code, time).sessions[id].summary;
            &&& marked.status == status
            &&& marked.last_error == last_error
            &&& same_origin(marked, before)
            &&& marked.terminal_cols == before.terminal_cols
            &&& marked.terminal_rows == before.terminal_rows
            &&& marked.finished_at == before.finished_at
            &&& marked.exit_code == before.exit_code
            &&& sized.terminal_cols == size.cols
            &&& sized.terminal_rows == size.rows
            &&& same_origin(sized, before)
            &&& sized.status == before.status
            &&& sized.last_error == before.last_error
            &&& sized.finished_at == before.finished_at
            &&& sized.exit_code == before.exit_code
            &&& exited.status == "exited"@
            &&& exited.exit_code == exit_code
            &&& exited.finished_at == Some(time)
            &&& same_origin(exited, before)
            &&& exited.terminal_cols == before.terminal_cols
            &&& exited.terminal_rows == before.terminal_rows
            &&& exited.last_error == before.last_error
        }),
{
}

/// Nothing is noted of a session that is not there.
pub proof fn nothing_is_noted_of_a_missing_session<H>(
    registry: RegistryView<H>,
    id: Seq<char>,
    status: Seq<char>,
    last_error: Option<Seq<char>>,
    size: PodExecTerminalSize,
    exit_code: Option<i32>,
    time: Seq<char>,
)
    requires
        !registry.sessions.contains_key(id),
    ensures
        with_status(registry, id, status, last_error) == registry,
        with_terminal_size(registry, id, size) == registry,
        with_exit(registry, id, exit_code, time) == registry,
{
}

/// An id is the number of the session behind `pod-exec-`.
pub proof fn an_id_tells_its_number(number: nat)
    ensures
        session_name(number).len() > 9,
        session_name(number).take(9) == "pod-exec-"@,
        integer_of(session_name(number).skip(9)) == Some(number as int),
{
    reveal_strlit("pod-exec-");
    assert("pod-exec-"@.len() == 9);
    assert(session_name(number).take(9) =~= "pod-exec-"@);
    assert(session_name(number).skip(9) =~= decimal_digits(number));
    decimal_digits_read_back(number);
}

/// A session stays open exactly where its context is one of those that are allowed and its
/// kubeconfig is the one that is allowed; one without a kubeconfig never does.
pub proof fn a_session_stays_in_its_scope(
    summary: SummaryView,
    contexts: Seq<Seq<char>>,
    source_key: Seq<char>,
)
    ensures
        in_scope(summary, contexts, source_key) <==> {
            &&& exists|i: int|
                0 <= i < contexts.len() && #[trigger] contexts[i] == summary.cluster_context
            &&& summary.kubeconfig_source_key matches Some(key) && key == source_key
        },
{
    if contexts.contains(summary.cluster_context) {
        let i = contexts.index_of(summary.cluster_context);
        assert(contexts[i] == summary.cluster_context);
    }
}

/// The tasks of sessions come one by one and in order, each session that has one with its
/// own.
pub proof fn tasks_come_one_by_one<H>(
    sessions: Map<Seq<char>, SessionView<H>>,
    a: Seq<Seq<char>>,
    b: Seq<Seq<char>>,
    id: Seq<char>,
)
    ensures
        handles_of(sessions, a + b) == handles_of(sessions, a) + handles_of(sessions, b),
        sessions[id].handle matches Some(handle) ==> handles_of(sessions, seq![id]) == seq![handle],
        sessions[id].handle is None ==> handles_of(sessions, seq![id]).len() == 0,
        handles_of(sessions, Seq::<Seq<char>>::empty()).len() == 0,
{
    let handle = |id: Seq<char>| sessions[id].handle;
    let none = Seq::<Seq<char>>::empty();
    assert((a + b).map_values(handle) =~= a.map_values(handle) + b.map_values(handle));
    lemma_present_of_two(a.map_values(handle), b.map_values(handle));
    assert(none.map_values(handle) =~= seq![]);
    lemma_handles_of_one_more(sessions, none, id);
    assert(none.push(id) =~= seq![id]);
    if let Some(found) = sessions[id].handle {
        assert(handles_of(sessions, none).push(found) =~= seq![found]);
    }
}

proof fn lemma_present_of_two<H>(a: Seq<Option<H>>, b: Seq<Option<H>>)
    ensures
        present(a + b) == present(a) + present(b),
{
    present_values_are_kept_in_order(a, b, arbitrary());
}

/// Input is taken exactly where it is at most 16 KiB long as it is written, its session is
/// there and takes input. What is too long is refused before it is asked whose it is, and
/// each refusal gives its own reason.
pub proof fn input_is_refused_for_a_reason<H>(
    registry: RegistryView<H>,
    id: Seq<char>,
    data: Seq<char>,
)
    ensures
        ({
            let refusal = input_refusal(registry, id, data);
            let long = encode_utf8(data).len() > 16_384;
            let there = registry.sessions.contains_key(id);
            let open = there && registry.sessions[id].summary.stdin;
            &&& refusal is None <==> !long && open
            &&& long ==> (refusal matches Some(error) && error.message
                == "exec input chunks must not exceed 16 KiB"@ && error.kind
                == AppErrorKind::Validation && error.source is None)
            &&& !long && !there ==> (refusal matches Some(error) && error.message
                == "exec session was not found"@ && error.kind == AppErrorKind::Session
                && error.source is None)
            &&& !long && there && !open ==> (refusal matches Some(error) && error.message
                == "exec session stdin is disabled"@ && error.kind == AppErrorKind::Session
                && error.source is None)
        }),
{
}

/// A command that is not taken says whether its queue is full or its session takes no more
/// input, and input that no room was left for says so.
pub proof fn refused_commands_say_why(command: ExecCommand)
    ensures
        queue_failure(QueueRefusal::Full(command)).message
            == "exec input queue is full; input was not accepted"@,
        queue_failure(QueueRefusal::Closed(command)).message
            == "exec session is no longer accepting input"@,
        queue_failure(QueueRefusal::Full(command)).kind == AppErrorKind::Session,
        queue_failure(QueueRefusal::Closed(command)).kind == AppErrorKind::Session,
        session_not_found().message == "exec session was not found"@,
        session_not_found().kind == AppErrorKind::Session,
        input_over_budget().message
            == "exec pending input exceeds 256 KiB; input was not accepted"@,
        input_over_budget().kind == AppErrorKind::Session,
{
}

/// Input that is queued is written as it is: its command carries the very bytes of the
/// text, holds as many bytes of the budget of its session as that are, and is answered
/// where the one who wrote it waits.
pub proof fn queued_input_is_written_as_it_is(
    command: ExecCommand,
    data: Seq<char>,
    budget: InputBudget,
    response: oneshot::Receiver<Result<(), AppError>>,
)
    requires
        writes(command, data, budget, response),
    ensures
        command matches ExecCommand::Stdin { data: bytes, acknowledged, permit } && bytes@
            == encode_utf8(data) && permit.taken() == encode_utf8(data).len() && permit.budget()
            == budget && answer_channel(acknowledged) == answered_channel(response),
{
}

/// Texts in order stand each before all that follow it, so that none occurs twice.
pub proof fn texts_in_order_are_distinct(texts: Seq<Seq<char>>, i: int, j: int)
    requires
        texts_in_order(texts),
        0 <= i < j < texts.len(),
    ensures
        text_before(texts[i], texts[j]),
        texts[i] != texts[j],
{
    text_before_is_a_strict_total_order(texts[i], texts[i], texts[i]);
}

} // verus!
