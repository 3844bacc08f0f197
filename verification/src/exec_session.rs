//! An exec session from its start to its end, as decisions between outside steps.

use crate::error::AppError;
use crate::exec_message::{
    exit_code_from_status, exit_code_of, ExecMessageView, ExecStatus, PodExecSessionMessage,
};
use crate::exec_queue::{
    capacity_of, command_channel, queue_of, queue_read_by, ExecCommand, COMMAND_CAPACITY,
    INPUT_CHUNK_BYTES, PENDING_INPUT_BYTES,
};
use crate::registry::{
    all_issued, session_name, session_summary, starting_summary, with_exit, with_status,
    PodExecRegistry, PodExecSessionSummary, RegistryView, ValidatedPodExecRequest,
};
use crate::text::text_opt;
use tokio::sync::mpsc;
use vstd::prelude::*;
use vstd::string::*;

verus! {

/// How much output of each stream may wait.
pub const OUTPUT_BUFFER_BYTES: usize = 64 * 1024;

/// How a container is attached to.
#[derive(Debug)]
pub struct AttachOptions {
    pub container: Option<String>,
    pub stdin: bool,
    pub stdout: bool,
    pub stderr: bool,
    pub tty: bool,
    pub max_stdin_buf_size: usize,
    pub max_stdout_buf_size: usize,
    pub max_stderr_buf_size: usize,
}

/// What [`AttachOptions`] say.
pub struct AttachOptionsView {
    pub container: Option<Seq<char>>,
    pub stdin: bool,
    pub stdout: bool,
    pub stderr: bool,
    pub tty: bool,
    pub max_stdin_buf_size: usize,
    pub max_stdout_buf_size: usize,
    pub max_stderr_buf_size: usize,
}

impl View for AttachOptions {
    type V = AttachOptionsView;

    open spec fn view(&self) -> AttachOptionsView {
        AttachOptionsView {
            container: text_opt(self.container),
            stdin: self.stdin,
            stdout: self.stdout,
            stderr: self.stderr,
            tty: self.tty,
            max_stdin_buf_size: self.max_stdin_buf_size,
            max_stdout_buf_size: self.max_stdout_buf_size,
            max_stderr_buf_size: self.max_stderr_buf_size,
        }
    }
}

/// How the container of a request is attached to: a terminal has no stream of its own
/// for errors.
pub open spec fn attach_options_of(request: ValidatedPodExecRequest) -> AttachOptionsView {
    AttachOptionsView {
        container: text_opt(request.container),
        stdin: request.stdin,
        stdout: true,
        stderr: !request.tty,
        tty: request.tty,
        max_stdin_buf_size: INPUT_CHUNK_BYTES,
        max_stdout_buf_size: OUTPUT_BUFFER_BYTES,
        max_stderr_buf_size: OUTPUT_BUFFER_BYTES,
    }
}

/// How the container of a request is attached to.
pub fn attach_options(request: &ValidatedPodExecRequest) -> (options: AttachOptions)
    ensures
        options@ == attach_options_of(*request),
        options.stdin == request.stdin,
        options.stdout,
        options.stderr == !request.tty,
        options.tty == request.tty,
        text_opt(options.container) == text_opt(request.container),
{
    AttachOptions {
        container: request.container.clone(),
        stdin: request.stdin,
        stdout: true,
        stderr: !request.tty,
        tty: request.tty,
        max_stdin_buf_size: INPUT_CHUNK_BYTES,
        max_stdout_buf_size: OUTPUT_BUFFER_BYTES,
        max_stderr_buf_size: OUTPUT_BUFFER_BYTES,
    }
}

/// A container is never attached to with both a terminal and a stream for errors, which
/// the API server refuses, and always with some stream.
pub proof fn attach_options_are_accepted(request: ValidatedPodExecRequest)
    ensures
        !(attach_options_of(request).tty && attach_options_of(request).stderr),
        attach_options_of(request).stdout,
{
}

/// Where a session stands.
#[derive(Debug, Clone, Copy, PartialEq, Eq, Structural)]
pub enum SessionPhase {
    /// The client is being made.
    Connecting,
    /// The container is being attached to.
    Attaching,
    /// Input and output go on.
    Driving,
    /// The session is over.
    Finished,
}

/// How the last call went.
#[derive(Debug)]
pub enum SessionEvent {
    Connected,
    ConnectFailed { message: String },
    Attached,
    AttachFailed { message: String },
    /// Input and output came to their end.
    Ended(Result<ExecStatus, AppError>),
}

/// Which call is to be made next.
#[derive(Debug, Clone, Copy, PartialEq, Eq, Structural)]
pub enum SessionCall {
    /// Make a client for the context of the request.
    Connect,
    /// Attach to the container of the request.
    Attach,
    /// Run input and output.
    Drive,
    /// None: the session is over.
    Finish,
    /// None: the event does not answer the last call.
    Ignore,
}

/// Messages that are to be sent, however that goes, and the call to be made then.
#[derive(Debug)]
pub struct SessionStep {
    pub messages: Vec<PodExecSessionMessage>,
    pub call: SessionCall,
}

/// What each of `messages` says.
pub open spec fn message_views(messages: Seq<PodExecSessionMessage>) -> Seq<ExecMessageView> {
    messages.map_values(|message: PodExecSessionMessage| message@)
}

/// A running session.
#[derive(Debug)]
pub struct ExecSession {
    pub session_id: String,
    pub phase: SessionPhase,
}

/// The message that a session failed.
pub open spec fn error_message(id: Seq<char>, message: Seq<char>) -> ExecMessageView {
    ExecMessageView::Error { session_id: id, message }
}

/// The first message of a session.
pub open spec fn connecting_message(id: Seq<char>) -> ExecMessageView {
    ExecMessageView::Status {
        session_id: id,
        status: "connecting"@,
        message: "Opening Kubernetes exec session"@,
    }
}

/// The message that a session runs.
pub open spec fn running_message(id: Seq<char>) -> ExecMessageView {
    ExecMessageView::Status {
        session_id: id,
        status: "running"@,
        message: "Exec session is running"@,
    }
}

/// The message that a session came to its end.
pub open spec fn exited_message(id: Seq<char>, status: ExecStatus) -> ExecMessageView {
    ExecMessageView::Exited {
        session_id: id,
        exit_code: exit_code_of(status),
        reason: text_opt(status.reason),
        message: text_opt(status.message),
    }
}

/// Where a session stands after `event`, what is to be sent, and which call is to be
/// made then. A session that never ran is not stopped.
pub open spec fn session_step(phase: SessionPhase, id: Seq<char>, event: SessionEvent) -> (
    SessionPhase,
    Seq<ExecMessageView>,
    SessionCall,
) {
    match (phase, event) {
        (SessionPhase::Connecting, SessionEvent::Connected) => (
            SessionPhase::Attaching,
            seq![],
            SessionCall::Attach,
        ),
        (SessionPhase::Connecting, SessionEvent::ConnectFailed { message }) => (
            SessionPhase::Finished,
            seq![error_message(id, message@)],
            SessionCall::Finish,
        ),
        (SessionPhase::Attaching, SessionEvent::Attached) => (
            SessionPhase::Driving,
            seq![running_message(id)],
            SessionCall::Drive,
        ),
        (SessionPhase::Attaching, SessionEvent::AttachFailed { message }) => (
            SessionPhase::Finished,
            seq![error_message(id, message@)],
            SessionCall::Finish,
        ),
        (SessionPhase::Driving, SessionEvent::Ended(Ok(status))) => (
            SessionPhase::Finished,
            seq![exited_message(id, status), ExecMessageView::Stopped { session_id: id }],
            SessionCall::Finish,
        ),
        (SessionPhase::Driving, SessionEvent::Ended(Err(error))) => (
            SessionPhase::Finished,
            seq![error_message(id, error@.message), ExecMessageView::Stopped { session_id: id }],
            SessionCall::Finish,
        ),
        _ => (phase, seq![], SessionCall::Ignore),
    }
}

/// The registry after `event`; `time` is when a session came to its end.
pub open spec fn registry_after<H>(
    registry: RegistryView<H>,
    phase: SessionPhase,
    id: Seq<char>,
    event: SessionEvent,
    time: Seq<char>,
) -> RegistryView<H> {
    match (phase, event) {
        (SessionPhase::Connecting, SessionEvent::ConnectFailed { message }) => with_status(
            registry,
            id,
            "error"@,
            Some(message@),
        ),
        (SessionPhase::Attaching, SessionEvent::Attached) => with_status(
            registry,
            id,
            "running"@,
            None,
        ),
        (SessionPhase::Attaching, SessionEvent::AttachFailed { message }) => with_status(
            registry,
            id,
            "error"@,
            Some(message@),
        ),
        (SessionPhase::Driving, SessionEvent::Ended(Ok(status))) => with_exit(
            registry,
            id,
            exit_code_of(status),
            time,
        ),
        (SessionPhase::Driving, SessionEvent::Ended(Err(error))) => with_status(
            registry,
            id,
            "error"@,
            Some(error@.message),
        ),
        _ => registry,
    }
}

fn one_message(message: PodExecSessionMessage, call: SessionCall) -> (step: SessionStep)
    ensures
        message_views(step.messages@) == seq![message@],
        step.call == call,
{
    let mut messages: Vec<PodExecSessionMessage> = Vec::new();
    messages.push(message);
    assert(message_views(messages@) =~= seq![message@]);
    SessionStep { messages, call }
}

fn no_message(call: SessionCall) -> (step: SessionStep)
    ensures
        message_views(step.messages@) == Seq::<ExecMessageView>::empty(),
        step.call == call,
{
    let messages: Vec<PodExecSessionMessage> = Vec::new();
    assert(message_views(messages@) =~= seq![]);
    SessionStep { messages, call }
}

impl ExecSession {
    /// A session at its start: the first message, and the first call.
    pub fn start(session_id: String) -> (started: (ExecSession, SessionStep))
        ensures
            started.0.session_id@ == session_id@,
            started.0.phase == SessionPhase::Connecting,
            message_views(started.1.messages@) == seq![connecting_message(session_id@)],
            started.1.call == SessionCall::Connect,
    {
        let message: PodExecSessionMessage = PodExecSessionMessage::Status {
            session_id: session_id.clone(),
            status: "connecting".to_owned(),
            message: "Opening Kubernetes exec session".to_owned(),
        };
        (
            ExecSession { session_id, phase: SessionPhase::Connecting },
            one_message(message, SessionCall::Connect),
        )
    }

    fn failed(&self, message: String) -> (step: SessionStep)
        ensures
            message_views(step.messages@) == seq![error_message(self.session_id@, message@)],
            step.call == SessionCall::Finish,
    {
        one_message(
            PodExecSessionMessage::Error { session_id: self.session_id.clone(), message },
            SessionCall::Finish,
        )
    }

    fn stopped(&self, last: PodExecSessionMessage) -> (step: SessionStep)
        ensures
            message_views(step.messages@) == seq![
                last@,
                ExecMessageView::Stopped { session_id: self.session_id@ },
            ],
            step.call == SessionCall::Finish,
    {
        let mut messages: Vec<PodExecSessionMessage> = Vec::new();
        messages.push(last);
        messages.push(PodExecSessionMessage::Stopped { session_id: self.session_id.clone() });
        assert(message_views(messages@) =~= seq![
            last@,
            ExecMessageView::Stopped { session_id: self.session_id@ },
        ]);
        SessionStep { messages, call: SessionCall::Finish }
    }

    /// Takes how the last call went, notes it in the registry, and says what is to be
    /// sent and which call to make next.
    pub fn advance<H>(&mut self, registry: &mut PodExecRegistry<H>, event: SessionEvent) -> (step:
        SessionStep)
        requires
            old(registry).inv(),
        ensures
            final(registry).inv(),
            final(self).session_id == old(self).session_id,
            (final(self).phase, message_views(step.messages@), step.call) == session_step(
                old(self).phase,
                old(self).session_id@,
                event,
            ),
            exists|time: Seq<char>|
                final(registry)@ == #[trigger] registry_after(
                    old(registry)@,
                    old(self).phase,
                    old(self).session_id@,
                    event,
                    time,
                ),
    {
        let ghost before = registry@;
        let ghost phase = self.phase;
        let ghost id = self.session_id@;
        let ghost told = event;
        let step: SessionStep = match (self.phase, event) {
            (SessionPhase::Connecting, SessionEvent::Connected) => {
                self.phase = SessionPhase::Attaching;
                no_message(SessionCall::Attach)
            },
            (SessionPhase::Connecting, SessionEvent::ConnectFailed { message }) => {
                self.phase = SessionPhase::Finished;
                registry.mark_error(self.session_id.as_str(), message.clone());
                self.failed(message)
            },
            (SessionPhase::Attaching, SessionEvent::Attached) => {
                self.phase = SessionPhase::Driving;
                registry.mark_running(self.session_id.as_str());
                one_message(
                    PodExecSessionMessage::Status {
                        session_id: self.session_id.clone(),
                        status: "running".to_owned(),
                        message: "Exec session is running".to_owned(),
                    },
                    SessionCall::Drive,
                )
            },
            (SessionPhase::Attaching, SessionEvent::AttachFailed { message }) => {
                self.phase = SessionPhase::Finished;
                registry.mark_error(self.session_id.as_str(), message.clone());
                self.failed(message)
            },
            (SessionPhase::Driving, SessionEvent::Ended(result)) => {
                self.phase = SessionPhase::Finished;
                match result {
                    Ok(status) => {
                        let exit_code: Option<i32> = exit_code_from_status(&status);
                        registry.mark_exited(self.session_id.as_str(), exit_code);
                        proof {
                            let time = choose|time: Seq<char>|
                                registry@ == #[trigger] with_exit(before, id, exit_code, time);
                            assert(registry@ == registry_after(before, phase, id, told, time));
                        }
                        self.stopped(
                            PodExecSessionMessage::Exited {
                                session_id: self.session_id.clone(),
                                exit_code,
                                reason: status.reason,
                                message: status.message,
                            },
                        )
                    },
                    Err(error) => {
                        registry.mark_error(self.session_id.as_str(), error.message.clone());
                        self.stopped(
                            PodExecSessionMessage::Error {
                                session_id: self.session_id.clone(),
                                message: error.message,
                            },
                        )
                    },
                }
            },
            _ => no_message(SessionCall::Ignore),
        };
        proof {
            if !(phase is Driving && (told matches SessionEvent::Ended(Ok(_)))) {
                assert(registry@ == registry_after(before, phase, id, told, seq![]));
            }
        }
        step
    }
}

/// The messages that a session sends while it is told `events`.
pub open spec fn session_messages(
    phase: SessionPhase,
    id: Seq<char>,
    events: Seq<SessionEvent>,
) -> Seq<ExecMessageView>
    decreases events.len(),
{
    if events.len() == 0 {
        seq![]
    } else {
        let (next, sent, _) = session_step(phase, id, events.first());
        sent + session_messages(next, id, events.drop_first())
    }
}

proof fn lemma_finished_is_silent(id: Seq<char>, events: Seq<SessionEvent>)
    ensures
        session_messages(SessionPhase::Finished, id, events) == Seq::<ExecMessageView>::empty(),
    decreases events.len(),
{
    if events.len() > 0 {
        lemma_finished_is_silent(id, events.drop_first());
    }
}

/// A session ends once: the message that it stopped is its last, and stands right
/// behind the one that tells how it ended.
pub proof fn stopped_comes_last(
    phase: SessionPhase,
    id: Seq<char>,
    events: Seq<SessionEvent>,
    at: int,
)
    requires
        0 <= at < session_messages(phase, id, events).len(),
        session_messages(phase, id, events)[at] is Stopped,
    ensures
        at == session_messages(phase, id, events).len() - 1,
        at > 0,
        session_messages(phase, id, events)[at - 1] is Exited || session_messages(
            phase,
            id,
            events,
        )[at - 1] is Error,
    decreases events.len(),
{
    let (next, sent, _) = session_step(phase, id, events.first());
    let rest = events.drop_first();
    let later = session_messages(next, id, rest);
    assert(session_messages(phase, id, events) =~= sent + later);
    if next is Finished && !(phase is Finished) {
        lemma_finished_is_silent(id, rest);
        assert(sent + later =~= sent);
    } else if at >= sent.len() {
        assert(later[at - sent.len()] == (sent + later)[at]);
        stopped_comes_last(next, id, rest, at - sent.len());
        assert((sent + later)[at - 1] == later[at - sent.len() - 1]);
    }
}

/// A session that could not be opened is told of by one failure, and nothing else.
pub proof fn an_unopened_session_is_not_stopped(
    id: Seq<char>,
    message: String,
    rest: Seq<SessionEvent>,
)
    ensures
        session_messages(
            SessionPhase::Connecting,
            id,
            seq![SessionEvent::ConnectFailed { message }] + rest,
        ) == seq![error_message(id, message@)],
        session_messages(
            SessionPhase::Attaching,
            id,
            seq![SessionEvent::AttachFailed { message }] + rest,
        ) == seq![error_message(id, message@)],
{
    lemma_finished_is_silent(id, rest);
    let a = seq![SessionEvent::ConnectFailed { message }] + rest;
    let b = seq![SessionEvent::AttachFailed { message }] + rest;
    assert(a.drop_first() =~= rest);
    assert(b.drop_first() =~= rest);
    assert(session_messages(SessionPhase::Connecting, id, a) =~= seq![
        error_message(id, message@),
    ]);
    assert(session_messages(SessionPhase::Attaching, id, b) =~= seq![error_message(id, message@)]);
}

/// A session that was added to the registry: what is told of it, the queue that its task
/// reads from, and the message that it started.
pub struct OpenedSession {
    pub summary: PodExecSessionSummary,
    pub commands: mpsc::Receiver<ExecCommand>,
    pub started: PodExecSessionMessage,
}

/// Adds a session for a request under a new id.
pub fn open_session<H>(
    registry: &mut PodExecRegistry<H>,
    request: &ValidatedPodExecRequest,
) -> (opened: OpenedSession)
    requires
        old(registry).inv(),
        old(registry)@.issued < u64::MAX,
    ensures
        final(registry).inv(),
        ({
            let id = session_name(old(registry)@.issued + 1);
            let session = final(registry)@.sessions[id];
            &&& opened.summary@ == starting_summary(id, *request, opened.summary@.started_at)
            &&& opened.started@ == ExecMessageView::Started {
                session_id: id,
                summary: opened.summary@,
            }
            &&& final(registry)@ == RegistryView {
                issued: old(registry)@.issued + 1,
                sessions: old(registry)@.sessions.insert(id, session),
            }
            &&& session.summary == opened.summary@
            &&& session.input_budget.limit() == PENDING_INPUT_BYTES
            &&& session.handle is None
            &&& queue_of(session.commands) == queue_read_by(opened.commands)
            &&& capacity_of(session.commands) == COMMAND_CAPACITY
        }),
        all_issued(old(registry)@) ==> all_issued(final(registry)@),
{
    let ghost before = registry@;
    let session_id: String = registry.session_id();
    let summary: PodExecSessionSummary = session_summary(session_id.clone(), request);
    assert(COMMAND_CAPACITY == 16);
    let (commands, received) = command_channel(COMMAND_CAPACITY);
    let summary: PodExecSessionSummary = registry.insert(summary, commands);
    proof {
        if all_issued(before) {
            assert forall|id: Seq<char>| #[trigger] registry@.sessions.contains_key(id) implies (
            exists|number: nat|
                1 <= number <= registry@.issued && id == #[trigger] session_name(number)) by {
                if id != session_name(registry@.issued) {
                    assert(before.sessions.contains_key(id));
                }
            }
        }
    }
    let started: PodExecSessionMessage = PodExecSessionMessage::Started {
        session_id,
        summary: summary.clone(),
    };
    OpenedSession { summary, commands: received, started }
}

/// A container is attached to as the request asks: with input exactly where the request
/// asks for input, whether or not it asks for a terminal, with a terminal exactly where it
/// asks for one, and in its container. Output is always attached, and errors have a stream
/// of their own exactly where there is no terminal.
pub proof fn a_container_is_attached_as_the_request_asks(request: ValidatedPodExecRequest)
    ensures
        attach_options_of(request).stdin <==> request.stdin,
        attach_options_of(request).tty <==> request.tty,
        attach_options_of(request).stdout,
        attach_options_of(request).stderr <==> !request.tty,
        request.container matches Some(container) ==> attach_options_of(request).container == Some(
            container@,
        ),
        request.container is None ==> attach_options_of(request).container is None,
        attach_options_of(request).max_stdin_buf_size == 16_384,
        attach_options_of(request).max_stdout_buf_size == 65_536,
        attach_options_of(request).max_stderr_buf_size == 65_536,
{
}

/// Asking for a terminal changes how errors are read and nothing about the input, and
/// asking for input changes nothing else.
pub proof fn input_and_terminal_are_asked_for_apart(
    a: ValidatedPodExecRequest,
    b: ValidatedPodExecRequest,
)
    ensures
        a.stdin == b.stdin ==> attach_options_of(a).stdin == attach_options_of(b).stdin,
        a.stdin != b.stdin ==> attach_options_of(a).stdin != attach_options_of(b).stdin,
        a.tty == b.tty ==> attach_options_of(a).stderr == attach_options_of(b).stderr
            && attach_options_of(a).tty == attach_options_of(b).tty,
{
}

/// Every message of a session carries the id of the session.
pub proof fn session_messages_carry_the_session_id(
    phase: SessionPhase,
    id: Seq<char>,
    event: SessionEvent,
    at: int,
)
    requires
        0 <= at < session_step(phase, id, event).1.len(),
    ensures
        match session_step(phase, id, event).1[at] {
            ExecMessageView::Started { session_id, .. } => session_id == id,
            ExecMessageView::Status { session_id, .. } => session_id == id,
            ExecMessageView::Output { session_id, .. } => session_id == id,
            ExecMessageView::Error { session_id, .. } => session_id == id,
            ExecMessageView::Exited { session_id, .. } => session_id == id,
            ExecMessageView::Stopped { session_id } => session_id == id,
        },
{
}

/// A session that is opened and runs to its end says first that it connects, then that it
/// runs, then with which code, reason and message it ended, and last that it stopped.
pub proof fn a_whole_session_is_told_of(id: Seq<char>, status: ExecStatus)
    ensures
        connecting_message(id) == (ExecMessageView::Status {
            session_id: id,
            status: "connecting"@,
            message: "Opening Kubernetes exec session"@,
        }),
        session_messages(
            SessionPhase::Connecting,
            id,
            seq![
                SessionEvent::Connected,
                SessionEvent::Attached,
                SessionEvent::Ended(Ok(status)),
            ],
        ) == seq![
            ExecMessageView::Status {
                session_id: id,
                status: "running"@,
                message: "Exec session is running"@,
            },
            ExecMessageView::Exited {
                session_id: id,
                exit_code: exit_code_of(status),
                reason: text_opt(status.reason),
                message: text_opt(status.message),
            },
            ExecMessageView::Stopped { session_id: id },
        ],
{
    let events = seq![
        SessionEvent::Connected,
        SessionEvent::Attached,
        SessionEvent::Ended(Ok(status)),
    ];
    reveal_with_fuel(session_messages, 4);
    assert(events.drop_first() =~= seq![
        SessionEvent::Attached,
        SessionEvent::Ended(Ok(status)),
    ]);
    assert(events.drop_first().drop_first() =~= seq![SessionEvent::Ended(Ok(status))]);
    assert(events.drop_first().drop_first().drop_first() =~= seq![]);
    assert(session_messages(SessionPhase::Connecting, id, events) =~= seq![
        ExecMessageView::Status {
            session_id: id,
            status: "running"@,
            message: "Exec session is running"@,
        },
        ExecMessageView::Exited {
            session_id: id,
            exit_code: exit_code_of(status),
            reason: text_opt(status.reason),
            message: text_opt(status.message),
        },
        ExecMessageView::Stopped { session_id: id },
    ]);
}

/// A session that fails, before it runs or while it does, is told of with the text of its
/// failure, and is over then.
pub proof fn a_failed_session_is_told_of(id: Seq<char>, message: String, error: AppError)
    ensures
        ({
            let unconnected = session_step(
                SessionPhase::Connecting,
                id,
                SessionEvent::ConnectFailed { message },
            );
            let unattached = session_step(
                SessionPhase::Attaching,
                id,
                SessionEvent::AttachFailed { message },
            );
            let broken = session_step(SessionPhase::Driving, id, SessionEvent::Ended(Err(error)));
            &&& unconnected.0 is Finished && unconnected.2 is Finish
            &&& unconnected.1 == seq![ExecMessageView::Error { session_id: id, message: message@ }]
            &&& unattached.0 is Finished && unattached.2 is Finish
            &&& unattached.1 == seq![ExecMessageView::Error { session_id: id, message: message@ }]
            &&& broken.0 is Finished && broken.2 is Finish
            &&& broken.1 == seq![
                ExecMessageView::Error { session_id: id, message: error.message@ },
                ExecMessageView::Stopped { session_id: id },
            ]
        }),
{
}

/// The calls of a session are made in their order: a client, the container, and then its
/// input and output.
pub proof fn a_session_makes_its_calls_in_order(id: Seq<char>)
    ensures
        ({
            let connected = session_step(SessionPhase::Connecting, id, SessionEvent::Connected);
            let attached = session_step(SessionPhase::Attaching, id, SessionEvent::Attached);
            &&& connected.0 is Attaching && connected.2 is Attach && connected.1.len() == 0
            &&& attached.0 is Driving && attached.2 is Drive
        }),
{
}

/// The registry tells of a session what its messages tell: that it runs, with which code
/// and when it ended, or why it failed. It changes nothing else of it, and no other
/// session.
pub proof fn the_registry_tells_what_the_messages_tell<H>(
    registry: RegistryView<H>,
    id: Seq<char>,
    message: String,
    error: AppError,
    status: ExecStatus,
    time: Seq<char>,
    other: Seq<char>,
)
    requires
        registry.sessions.contains_key(id),
    ensures
        ({
            let of = |phase: SessionPhase, event: SessionEvent|
                registry_after(registry, phase, id, event, time);
            let running = of(SessionPhase::Attaching, SessionEvent::Attached);
            let exited = of(SessionPhase::Driving, SessionEvent::Ended(Ok(status)));
            let unconnected = of(
                SessionPhase::Connecting,
                SessionEvent::ConnectFailed { message },
            );
            let unattached = of(SessionPhase::Attaching, SessionEvent::AttachFailed { message });
            let broken = of(SessionPhase::Driving, SessionEvent::Ended(Err(error)));
            let told = |after: RegistryView<H>| after.sessions[id].summary;
            &&& told(running).status == "running"@ && told(running).last_error is None
            &&& told(exited).status == "exited"@ && told(exited).exit_code == exit_code_of(status)
                && told(exited).finished_at == Some(time)
            &&& told(unconnected).status == "error"@ && told(unconnected).last_error == Some(
                message@,
            )
            &&& told(unattached).status == "error"@ && told(unattached).last_error == Some(message@)
            &&& told(broken).status == "error"@ && told(broken).last_error == Some(error.message@)
            &&& of(SessionPhase::Connecting, SessionEvent::Connected) == registry
            &&& other != id ==> running.sessions[other] == registry.sessions[other]
            &&& other != id ==> exited.sessions[other] == registry.sessions[other]
            &&& other != id ==> broken.sessions[other] == registry.sessions[other]
        }),
{
}

} // verus!
