//! The input of an attached container and the end of its session, as decisions between
//! outside steps.

use crate::error::{failure, AppError, AppErrorKind, AppErrorView, ErrorLink};
use crate::exec_message::ExecStatus;
use crate::exec_queue::{
    answer_channel, send_answer, Delivered, ExecCommand, InputPermit, PodExecTerminalSize,
};
use crate::registry::{with_terminal_size, PodExecRegistry, RegistryView};
use tokio::sync::oneshot;
use vstd::prelude::*;
use vstd::string::*;

verus! {

/// An answer on its way to the one who wrote input.
pub struct Acknowledgement {
    pub to: oneshot::Sender<Result<(), AppError>>,
    pub result: Result<(), AppError>,
}

impl Acknowledgement {
    /// Hands the answer over. One that is not taken, because nobody waits for it any
    /// more, comes back. Whether it is taken depends on the task of the one who waits.
    pub fn deliver(self) -> (sent: Result<Delivered, Result<(), AppError>>)
        ensures
            sent matches Ok(delivered) ==> delivered.channel() == answer_channel(self.to)
                && delivered.answer() == self.result,
            sent matches Err(back) ==> back == self.result,
    {
        send_answer(self.to, self.result)
    }
}

/// Where the input of a session stands.
pub enum InputPhase {
    /// The first size of the terminal is being set.
    Sizing,
    /// A command is being waited for.
    Waiting,
    /// Input is being written.
    Writing { acknowledged: oneshot::Sender<Result<(), AppError>>, permit: InputPermit },
    /// The one who wrote input is being answered; a failure ends the session then.
    Answering { failed: Option<AppError>, permit: InputPermit },
    /// A new size of the terminal is being set.
    Resizing(PodExecTerminalSize),
    /// The input is over.
    Failed,
}

/// What an [`InputPhase`] says.
pub enum InputPhaseView {
    Sizing,
    Waiting,
    Writing { acknowledged: oneshot::Sender<Result<(), AppError>>, permit: InputPermit },
    Answering { failed: Option<AppErrorView>, permit: InputPermit },
    Resizing(PodExecTerminalSize),
    Failed,
}

impl View for InputPhase {
    type V = InputPhaseView;

    open spec fn view(&self) -> InputPhaseView {
        match *self {
            InputPhase::Sizing => InputPhaseView::Sizing,
            InputPhase::Waiting => InputPhaseView::Waiting,
            InputPhase::Writing { acknowledged, permit } => InputPhaseView::Writing {
                acknowledged,
                permit,
            },
            InputPhase::Answering { failed, permit } => InputPhaseView::Answering {
                failed: match failed {
                    Some(error) => Some(error@),
                    None => None,
                },
                permit,
            },
            InputPhase::Resizing(size) => InputPhaseView::Resizing(size),
            InputPhase::Failed => InputPhaseView::Failed,
        }
    }
}

/// The input of a session: whether its container takes input and has a terminal.
pub struct ExecInput {
    pub session_id: String,
    pub stdin: bool,
    pub terminal: bool,
    pub phase: InputPhase,
}

/// What an [`ExecInput`] is.
pub struct ExecInputView {
    pub session_id: Seq<char>,
    pub stdin: bool,
    pub terminal: bool,
    pub phase: InputPhaseView,
}

impl View for ExecInput {
    type V = ExecInputView;

    open spec fn view(&self) -> ExecInputView {
        ExecInputView {
            session_id: self.session_id@,
            stdin: self.stdin,
            terminal: self.terminal,
            phase: self.phase@,
        }
    }
}

/// How the last action went.
pub enum InputEvent {
    /// The size of the terminal was set, or was not, for these errors.
    Resized(Result<(), Vec<ErrorLink>>),
    /// A command came, or none will come any more.
    Received(Option<ExecCommand>),
    /// Input was written, or was not, for these errors.
    Written(Result<(), Vec<ErrorLink>>),
    /// An answer was handed over, or came back because nobody waits for it.
    Answered(Result<Delivered, Result<(), AppError>>),
}

/// What is to be done next.
pub enum InputAction {
    /// Set the size of the terminal.
    Resize(PodExecTerminalSize),
    /// Wait for a command.
    Receive,
    /// Write input to the container.
    Write(Vec<u8>),
    /// Hand over an answer.
    Answer(Acknowledgement),
    /// Nothing: the input is over.
    Fail(AppError),
    /// Nothing: the event does not answer the last action.
    Ignore,
}

/// What an [`InputAction`] says.
pub enum InputActionView {
    Resize(PodExecTerminalSize),
    Receive,
    Write(Seq<u8>),
    Answer { to: oneshot::Sender<Result<(), AppError>>, result: Result<(), AppErrorView> },
    Fail(AppErrorView),
    Ignore,
}

/// The result as contracts speak of it.
pub open spec fn result_view(result: Result<(), AppError>) -> Result<(), AppErrorView> {
    match result {
        Ok(()) => Ok(()),
        Err(error) => Err(error@),
    }
}

impl View for InputAction {
    type V = InputActionView;

    open spec fn view(&self) -> InputActionView {
        match *self {
            InputAction::Resize(size) => InputActionView::Resize(size),
            InputAction::Receive => InputActionView::Receive,
            InputAction::Write(data) => InputActionView::Write(data@),
            InputAction::Answer(answer) => InputActionView::Answer {
                to: answer.to,
                result: result_view(answer.result),
            },
            InputAction::Fail(error) => InputActionView::Fail(error@),
            InputAction::Ignore => InputActionView::Ignore,
        }
    }
}

/// The failure of a session whose terminal could not be resized.
pub open spec fn resize_failure(links: Seq<ErrorLink>) -> AppErrorView {
    AppErrorView {
        source: Some(links),
        ..failure("Could not resize exec terminal"@, AppErrorKind::Session)
    }
}

/// The failure of a session whose input could not be written.
pub open spec fn write_failure(links: Seq<ErrorLink>) -> AppErrorView {
    AppErrorView {
        source: Some(links),
        ..failure("Could not write exec input"@, AppErrorKind::Io)
    }
}

/// The failure of input to a container that takes none.
pub open spec fn stdin_unavailable() -> AppErrorView {
    failure("exec session stdin is unavailable"@, AppErrorKind::Session)
}

/// The failure of a session that nobody can send commands to any more.
pub open spec fn input_channel_closed() -> AppErrorView {
    failure("exec input channel closed before completion"@, AppErrorKind::Session)
}

/// How the input of a session begins.
pub open spec fn input_start(terminal: bool, size: PodExecTerminalSize) -> (
    InputPhaseView,
    InputActionView,
) {
    if terminal {
        (InputPhaseView::Sizing, InputActionView::Resize(size))
    } else {
        (InputPhaseView::Waiting, InputActionView::Receive)
    }
}

/// What a command makes of the input of a session that waits for one.
pub open spec fn command_step(input: ExecInputView, command: ExecCommand) -> (
    InputPhaseView,
    InputActionView,
) {
    match command {
        ExecCommand::Stdin { data, acknowledged, permit } => if input.stdin {
            (
                InputPhaseView::Writing { acknowledged, permit },
                InputActionView::Write(data@),
            )
        } else {
            (
                InputPhaseView::Answering { failed: Some(stdin_unavailable()), permit },
                InputActionView::Answer { to: acknowledged, result: Err(stdin_unavailable()) },
            )
        },
        ExecCommand::Resize(size) => if input.terminal {
            (InputPhaseView::Resizing(size), InputActionView::Resize(size))
        } else {
            (InputPhaseView::Waiting, InputActionView::Receive)
        },
    }
}

/// Where the input of a session stands after `event`, and what is to be done then.
pub open spec fn input_step(input: ExecInputView, event: InputEvent) -> (
    InputPhaseView,
    InputActionView,
) {
    match (input.phase, event) {
        (InputPhaseView::Sizing, InputEvent::Resized(Ok(()))) => (
            InputPhaseView::Waiting,
            InputActionView::Receive,
        ),
        (InputPhaseView::Sizing, InputEvent::Resized(Err(links))) => (
            InputPhaseView::Failed,
            InputActionView::Fail(resize_failure(links@)),
        ),
        (InputPhaseView::Waiting, InputEvent::Received(Some(command))) => command_step(
            input,
            command,
        ),
        (InputPhaseView::Waiting, InputEvent::Received(None)) => (
            InputPhaseView::Failed,
            InputActionView::Fail(input_channel_closed()),
        ),
        (
            InputPhaseView::Writing { acknowledged, permit },
            InputEvent::Written(Ok(())),
        ) => (
            InputPhaseView::Answering { failed: None, permit },
            InputActionView::Answer { to: acknowledged, result: Ok(()) },
        ),
        (
            InputPhaseView::Writing { acknowledged, permit },
            InputEvent::Written(Err(links)),
        ) => (
            InputPhaseView::Answering { failed: Some(write_failure(links@)), permit },
            InputActionView::Answer { to: acknowledged, result: Err(write_failure(links@)) },
        ),
        (InputPhaseView::Answering { failed: None, .. }, InputEvent::Answered(_)) => (
            InputPhaseView::Waiting,
            InputActionView::Receive,
        ),
        (InputPhaseView::Answering { failed: Some(error), .. }, InputEvent::Answered(_)) => (
            InputPhaseView::Failed,
            InputActionView::Fail(error),
        ),
        (InputPhaseView::Resizing(_), InputEvent::Resized(Ok(()))) => (
            InputPhaseView::Waiting,
            InputActionView::Receive,
        ),
        (InputPhaseView::Resizing(_), InputEvent::Resized(Err(links))) => (
            InputPhaseView::Failed,
            InputActionView::Fail(resize_failure(links@)),
        ),
        (phase, _) => (phase, InputActionView::Ignore),
    }
}

/// The registry after `event`: a new size of the terminal is noted once it is set.
pub open spec fn registry_after_input<H>(
    registry: RegistryView<H>,
    input: ExecInputView,
    event: InputEvent,
) -> RegistryView<H> {
    match (input.phase, event) {
        (InputPhaseView::Resizing(size), InputEvent::Resized(Ok(()))) => with_terminal_size(
            registry,
            input.session_id,
            size,
        ),
        _ => registry,
    }
}

impl ExecInput {
    /// The input of a session at its start, and the first action: the terminal, where
    /// there is one, gets its size.
    pub fn start(
        session_id: String,
        stdin: bool,
        terminal: bool,
        size: PodExecTerminalSize,
    ) -> (started: (ExecInput, InputAction))
        ensures
            (started.0@.phase, started.1@) == input_start(terminal, size),
            started.0@.session_id == session_id@,
            started.0@.stdin == stdin,
            started.0@.terminal == terminal,
    {
        if terminal {
            (
                ExecInput { session_id, stdin, terminal, phase: InputPhase::Sizing },
                InputAction::Resize(size),
            )
        } else {
            (
                ExecInput { session_id, stdin, terminal, phase: InputPhase::Waiting },
                InputAction::Receive,
            )
        }
    }

    fn command(&self, command: ExecCommand) -> (next: (InputPhase, InputAction))
        ensures
            (next.0@, next.1@) == command_step(self@, command),
    {
        match command {
            ExecCommand::Stdin { data, acknowledged, permit } => {
                if self.stdin {
                    (InputPhase::Writing { acknowledged, permit }, InputAction::Write(data))
                } else {
                    let error: AppError = AppError::new(
                        "exec session stdin is unavailable",
                        AppErrorKind::Session,
                    );
                    (
                        InputPhase::Answering { failed: Some(error.clone()), permit },
                        InputAction::Answer(
                            Acknowledgement { to: acknowledged, result: Err(error) },
                        ),
                    )
                }
            },
            ExecCommand::Resize(size) => {
                if self.terminal {
                    (InputPhase::Resizing(size), InputAction::Resize(size))
                } else {
                    (InputPhase::Waiting, InputAction::Receive)
                }
            },
        }
    }

    /// Takes how the last action went, and says what is to be done next.
    pub fn advance<H>(self, registry: &mut PodExecRegistry<H>, event: InputEvent) -> (next: (
        ExecInput,
        InputAction,
    ))
        requires
            old(registry).inv(),
        ensures
            final(registry).inv(),
            (next.0@.phase, next.1@) == input_step(self@, event),
            next.0@.session_id == self@.session_id,
            next.0@.stdin == self@.stdin,
            next.0@.terminal == self@.terminal,
            final(registry)@ == registry_after_input(old(registry)@, self@, event),
    {
        let session_id: String = self.session_id;
        let stdin: bool = self.stdin;
        let terminal: bool = self.terminal;
        let (phase, action): (InputPhase, InputAction) = match (self.phase, event) {
            (InputPhase::Sizing, InputEvent::Resized(outcome)) => match outcome {
                Ok(()) => (InputPhase::Waiting, InputAction::Receive),
                Err(links) => (InputPhase::Failed, resize_failed(links)),
            },
            (InputPhase::Waiting, InputEvent::Received(received)) => match received {
                Some(command) => {
                    let waiting: ExecInput = ExecInput {
                        session_id: session_id.clone(),
                        stdin,
                        terminal,
                        phase: InputPhase::Waiting,
                    };
                    waiting.command(command)
                },
                None => (
                    InputPhase::Failed,
                    InputAction::Fail(
                        AppError::new(
                            "exec input channel closed before completion",
                            AppErrorKind::Session,
                        ),
                    ),
                ),
            },
            (InputPhase::Writing { acknowledged, permit }, InputEvent::Written(outcome)) => {
                match outcome {
                    Ok(()) => (
                        InputPhase::Answering { failed: None, permit },
                        InputAction::Answer(Acknowledgement { to: acknowledged, result: Ok(()) }),
                    ),
                    Err(links) => {
                        let error: AppError = AppError::new(
                            "Could not write exec input",
                            AppErrorKind::Io,
                        ).with_source(links);
                        (
                            InputPhase::Answering { failed: Some(error.clone()), permit },
                            InputAction::Answer(
                                Acknowledgement { to: acknowledged, result: Err(error) },
                            ),
                        )
                    },
                }
            },
            (InputPhase::Answering { failed, permit: _ }, InputEvent::Answered(_)) => match failed {
                None => (InputPhase::Waiting, InputAction::Receive),
                Some(error) => (InputPhase::Failed, InputAction::Fail(error)),
            },
            (InputPhase::Resizing(size), InputEvent::Resized(outcome)) => match outcome {
                Ok(()) => {
                    registry.mark_terminal_size(session_id.as_str(), size);
                    (InputPhase::Waiting, InputAction::Receive)
                },
                Err(links) => (InputPhase::Failed, resize_failed(links)),
            },
            (phase, _) => (phase, InputAction::Ignore),
        };
        (ExecInput { session_id, stdin, terminal, phase }, action)
    }
}

fn resize_failed(links: Vec<ErrorLink>) -> (action: InputAction)
    ensures
        action@ == InputActionView::Fail(resize_failure(links@)),
{
    InputAction::Fail(
        AppError::new("Could not resize exec terminal", AppErrorKind::Session).with_source(links),
    )
}

/// Whatever comes of input, the one who wrote it is answered, and the session goes on
/// exactly where the answer is that it was written.
pub proof fn input_is_answered(
    input: ExecInputView,
    data: Vec<u8>,
    acknowledged: oneshot::Sender<Result<(), AppError>>,
    permit: InputPermit,
    outcome: Result<(), Vec<ErrorLink>>,
    sent: Result<Delivered, Result<(), AppError>>,
)
    requires
        input.phase is Waiting,
    ensures
        ({
            let command = ExecCommand::Stdin { data, acknowledged, permit };
            let (taken, first) = input_step(input, InputEvent::Received(Some(command)));
            let (answering, answer) = if input.stdin {
                input_step(
                    ExecInputView { phase: taken, ..input },
                    InputEvent::Written(outcome),
                )
            } else {
                (taken, first)
            };
            let last = input_step(
                ExecInputView { phase: answering, ..input },
                InputEvent::Answered(sent),
            ).1;
            &&& input.stdin ==> first == InputActionView::Write(data@)
            &&& answer matches InputActionView::Answer { to, result } && to == acknowledged && (
            result is Ok <==> last is Receive) && (result is Ok <==> input.stdin && outcome is Ok)
                && (result matches Err(error) ==> last == InputActionView::Fail(error))
        }),
{
}

/// The names under which the streams of a container are shown: with a terminal there is
/// one stream of output.
pub fn stdout_stream(tty: bool) -> (name: &'static str)
    ensures
        name@ == (if tty {
            "terminal"@
        } else {
            "stdout"@
        }),
{
    if tty {
        "terminal"
    } else {
        "stdout"
    }
}

/// How a task that reads output ended.
#[derive(Debug)]
pub enum ReaderEnd {
    /// The stream was read to its end.
    Done,
    /// The stream failed.
    Failed(AppError),
    /// The task itself failed, for these errors.
    Crashed(Vec<ErrorLink>),
}

/// Where the end of a session stands.
#[derive(Debug)]
pub enum DrivePhase {
    /// The container runs.
    Running,
    /// The container has ended, and output is still read.
    Draining(ExecStatus),
    /// The session is over.
    Finished,
}

/// The end of a session: its phase, and how many tasks still read output.
#[derive(Debug)]
pub struct ExecDrive {
    pub readers: usize,
    pub phase: DrivePhase,
}

/// What happened first of what is waited for.
#[derive(Debug)]
pub enum DriveEvent {
    /// The container told its status, or ended without one.
    Status(Option<ExecStatus>),
    /// The input failed.
    InputFailed(AppError),
    /// A task that reads output ended.
    Reader(ReaderEnd),
}

/// What is to be waited for next.
#[derive(Debug)]
pub enum DriveAction {
    /// The status, the input, or a reader where there is one.
    Wait,
    /// A reader.
    Join,
    /// Nothing: the session is over.
    Finish(Result<ExecStatus, AppError>),
    /// Nothing: the event is none that was waited for.
    Ignore,
}

/// What a [`DriveAction`] says.
pub enum DriveActionView {
    Wait,
    Join,
    Finish(Result<ExecStatus, AppErrorView>),
    Ignore,
}

impl View for DriveAction {
    type V = DriveActionView;

    open spec fn view(&self) -> DriveActionView {
        match *self {
            DriveAction::Wait => DriveActionView::Wait,
            DriveAction::Join => DriveActionView::Join,
            DriveAction::Finish(result) => DriveActionView::Finish(
                match result {
                    Ok(status) => Ok(status),
                    Err(error) => Err(error@),
                },
            ),
            DriveAction::Ignore => DriveActionView::Ignore,
        }
    }
}

/// Why a session ends with a task that reads output, if it does.
pub open spec fn reader_failure(end: ReaderEnd) -> Option<AppErrorView> {
    match end {
        ReaderEnd::Done => None,
        ReaderEnd::Failed(error) => Some(error@),
        ReaderEnd::Crashed(links) => Some(
            AppErrorView {
                source: Some(links@),
                ..failure("exec output task failed"@, AppErrorKind::Internal)
            },
        ),
    }
}

/// How the end of a session begins: a container that will tell no status has no session.
pub open spec fn drive_start(readers: usize, has_status: bool) -> (ExecDrive, DriveActionView) {
    if has_status {
        (ExecDrive { readers, phase: DrivePhase::Running }, DriveActionView::Wait)
    } else {
        (
            ExecDrive { readers, phase: DrivePhase::Finished },
            DriveActionView::Finish(
                Err(failure("exec status receiver is unavailable"@, AppErrorKind::Session)),
            ),
        )
    }
}

/// The end of a session once the status is known: it waits for all output.
pub open spec fn drain(readers: int, status: ExecStatus) -> (ExecDrive, DriveActionView) {
    if readers > 0 {
        (
            ExecDrive { readers: readers as usize, phase: DrivePhase::Draining(status) },
            DriveActionView::Join,
        )
    } else {
        (
            ExecDrive { readers: 0, phase: DrivePhase::Finished },
            DriveActionView::Finish(Ok(status)),
        )
    }
}

/// The end of a session by a failure.
pub open spec fn abandon(readers: usize, error: AppErrorView) -> (ExecDrive, DriveActionView) {
    (ExecDrive { readers, phase: DrivePhase::Finished }, DriveActionView::Finish(Err(error)))
}

/// Where the end of a session stands after `event`, and what is to be waited for then.
pub open spec fn drive_step(drive: ExecDrive, event: DriveEvent) -> (ExecDrive, DriveActionView) {
    match (drive.phase, event) {
        (DrivePhase::Running, DriveEvent::Status(Some(status))) => drain(
            drive.readers as int,
            status,
        ),
        (DrivePhase::Running, DriveEvent::Status(None)) => abandon(
            drive.readers,
            failure("exec session closed without an exit status"@, AppErrorKind::Session),
        ),
        (DrivePhase::Running, DriveEvent::InputFailed(error)) => abandon(drive.readers, error@),
        (DrivePhase::Running, DriveEvent::Reader(end)) => if drive.readers == 0 {
            (drive, DriveActionView::Ignore)
        } else {
            match reader_failure(end) {
                Some(error) => abandon((drive.readers - 1) as usize, error),
                None => (
                    ExecDrive {
                        readers: (drive.readers - 1) as usize,
                        phase: DrivePhase::Running,
                    },
                    DriveActionView::Wait,
                ),
            }
        },
        (DrivePhase::Draining(status), DriveEvent::Reader(end)) => if drive.readers == 0 {
            (drive, DriveActionView::Ignore)
        } else {
            match reader_failure(end) {
                Some(error) => abandon((drive.readers - 1) as usize, error),
                None => drain(drive.readers - 1, status),
            }
        },
        _ => (drive, DriveActionView::Ignore),
    }
}

fn reader_error(end: ReaderEnd) -> (error: Option<AppError>)
    ensures
        reader_failure(end) == (match error {
            Some(error) => Some(error@),
            None => None,
        }),
{
    match end {
        ReaderEnd::Done => None,
        ReaderEnd::Failed(error) => Some(error),
        ReaderEnd::Crashed(links) => Some(
            AppError::new("exec output task failed", AppErrorKind::Internal).with_source(links),
        ),
    }
}

fn drained(readers: usize, status: ExecStatus) -> (next: (ExecDrive, DriveAction))
    ensures
        (next.0, next.1@) == drain(readers as int, status),
{
    if readers > 0 {
        (ExecDrive { readers, phase: DrivePhase::Draining(status) }, DriveAction::Join)
    } else {
        (
            ExecDrive { readers: 0, phase: DrivePhase::Finished },
            DriveAction::Finish(Ok(status)),
        )
    }
}

fn abandoned(readers: usize, error: AppError) -> (next: (ExecDrive, DriveAction))
    ensures
        (next.0, next.1@) == abandon(readers, error@),
{
    (
        ExecDrive { readers, phase: DrivePhase::Finished },
        DriveAction::Finish(Err(error)),
    )
}

impl ExecDrive {
    /// The end of a session at its start, and what is to be waited for.
    pub fn start(readers: usize, has_status: bool) -> (started: (ExecDrive, DriveAction))
        ensures
            (started.0, started.1@) == drive_start(readers, has_status),
    {
        if has_status {
            (ExecDrive { readers, phase: DrivePhase::Running }, DriveAction::Wait)
        } else {
            abandoned(
                readers,
                AppError::new("exec status receiver is unavailable", AppErrorKind::Session),
            )
        }
    }

    /// Takes what happened, and says what is to be waited for next.
    pub fn advance(self, event: DriveEvent) -> (next: (ExecDrive, DriveAction))
        ensures
            (next.0, next.1@) == drive_step(self, event),
    {
        let readers: usize = self.readers;
        match (self.phase, event) {
            (DrivePhase::Running, DriveEvent::Status(told)) => match told {
                Some(status) => drained(readers, status),
                None => abandoned(
                    readers,
                    AppError::new(
                        "exec session closed without an exit status",
                        AppErrorKind::Session,
                    ),
                ),
            },
            (DrivePhase::Running, DriveEvent::InputFailed(error)) => abandoned(readers, error),
            (DrivePhase::Running, DriveEvent::Reader(end)) => {
                if readers == 0 {
                    (ExecDrive { readers, phase: DrivePhase::Running }, DriveAction::Ignore)
                } else {
                    match reader_error(end) {
                        Some(error) => abandoned(readers - 1, error),
                        None => (
                            ExecDrive { readers: readers - 1, phase: DrivePhase::Running },
                            DriveAction::Wait,
                        ),
                    }
                }
            },
            (DrivePhase::Draining(status), DriveEvent::Reader(end)) => {
                if readers == 0 {
                    (
                        ExecDrive { readers, phase: DrivePhase::Draining(status) },
                        DriveAction::Ignore,
                    )
                } else {
                    match reader_error(end) {
                        Some(error) => abandoned(readers - 1, error),
                        None => drained(readers - 1, status),
                    }
                }
            },
            (phase, _) => (ExecDrive { readers, phase }, DriveAction::Ignore),
        }
    }
}

/// A session ends with its status only after all output was read: no reader is left
/// then.
pub proof fn all_output_comes_before_the_status(drive: ExecDrive, event: DriveEvent)
    ensures
        drive_step(drive, event).1 matches DriveActionView::Finish(Ok(_)) ==> drive_step(
            drive,
            event,
        ).0.readers == 0,
{
}

/// A session after `events`.
pub open spec fn driven(drive: ExecDrive, events: Seq<DriveEvent>) -> ExecDrive
    decreases events.len(),
{
    if events.len() == 0 {
        drive
    } else {
        drive_step(driven(drive, events.drop_last()), events.last()).0
    }
}

/// The status that a session ends with is the one that its container told while it ran,
/// and is kept while output is drained.
pub proof fn the_told_status_is_kept(
    drive: ExecDrive,
    status: ExecStatus,
    ends: Seq<DriveEvent>,
)
    requires
        drive.phase is Running,
        drive.readers == ends.len(),
        forall|i: int| 0 <= i < ends.len() ==> #[trigger] ends[i] == DriveEvent::Reader(
            ReaderEnd::Done,
        ),
    ensures
        ({
            let (first, action) = drive_step(drive, DriveEvent::Status(Some(status)));
            if ends.len() == 0 {
                action == DriveActionView::Finish(Ok(status))
            } else {
                &&& action is Join
                &&& drive_step(driven(first, ends.drop_last()), ends.last()).1
                    == DriveActionView::Finish(Ok(status))
            }
        }),
{
    if ends.len() > 0 {
        let first = drive_step(drive, DriveEvent::Status(Some(status))).0;
        assert(ends.last() == ends[ends.len() - 1]);
        assert forall|i: int| 0 <= i < ends.drop_last().len() implies #[trigger] ends.drop_last()[i]
            == DriveEvent::Reader(ReaderEnd::Done) by {
            assert(ends.drop_last()[i] == ends[i]);
        }
        lemma_draining(first, status, ends.drop_last());
    }
}

proof fn lemma_draining(drive: ExecDrive, status: ExecStatus, ends: Seq<DriveEvent>)
    requires
        drive.phase == DrivePhase::Draining(status),
        ends.len() < drive.readers,
        forall|i: int| 0 <= i < ends.len() ==> #[trigger] ends[i] == DriveEvent::Reader(
            ReaderEnd::Done,
        ),
    ensures
        driven(drive, ends).phase == DrivePhase::Draining(status),
        driven(drive, ends).readers == drive.readers - ends.len(),
    decreases ends.len(),
{
    if ends.len() > 0 {
        assert(ends.last() == ends[ends.len() - 1]);
        assert forall|i: int| 0 <= i < ends.drop_last().len() implies #[trigger] ends.drop_last()[i]
            == DriveEvent::Reader(ReaderEnd::Done) by {
            assert(ends.drop_last()[i] == ends[i]);
        }
        lemma_draining(drive, status, ends.drop_last());
    }
}

/// The terminal of a session gets the size that was asked for: the first size at the start
/// and a new one as soon as it is asked for, in columns and rows as they were given. A
/// session without a terminal sets none and goes on.
pub proof fn a_terminal_gets_the_size_asked_for(input: ExecInputView, size: PodExecTerminalSize)
    requires
        input.phase is Waiting,
    ensures
        input_start(true, size).1 == InputActionView::Resize(size),
        input_start(false, size).1 is Receive,
        ({
            let (next, action) = input_step(
                input,
                InputEvent::Received(Some(ExecCommand::Resize(size))),
            );
            &&& input.terminal ==> action == InputActionView::Resize(size)
            &&& !input.terminal ==> action is Receive && next is Waiting
        }),
{
}

/// A new size of the terminal is noted of its own session once it was set and not before;
/// nothing else that happens to the input is noted.
pub proof fn a_size_is_noted_once_it_is_set<H>(
    registry: RegistryView<H>,
    input: ExecInputView,
    size: PodExecTerminalSize,
    links: Vec<ErrorLink>,
    event: InputEvent,
    command: ExecCommand,
)
    requires
        input.phase == InputPhaseView::Resizing(size),
        registry.sessions.contains_key(input.session_id),
    ensures
        ({
            let after = registry_after_input(registry, input, InputEvent::Resized(Ok(())));
            let told = after.sessions[input.session_id].summary;
            &&& told.terminal_cols == size.cols
            &&& told.terminal_rows == size.rows
            &&& input_step(input, InputEvent::Resized(Ok(()))).1 is Receive
        }),
        registry_after_input(registry, input, InputEvent::Resized(Err(links))) == registry,
        registry_after_input(
            registry,
            ExecInputView { phase: InputPhaseView::Waiting, ..input },
            InputEvent::Received(Some(command)),
        ) == registry,
        registry_after_input(
            registry,
            ExecInputView { phase: InputPhaseView::Sizing, ..input },
            event,
        ) == registry,
{
}

/// What ends the input says why: a terminal that could not be resized, with the errors
/// behind it, or that no commands will come any more.
pub proof fn the_end_of_the_input_says_why(
    input: ExecInputView,
    size: PodExecTerminalSize,
    links: Vec<ErrorLink>,
)
    ensures
        ({
            let sizing = ExecInputView { phase: InputPhaseView::Sizing, ..input };
            let resizing = ExecInputView { phase: InputPhaseView::Resizing(size), ..input };
            let waiting = ExecInputView { phase: InputPhaseView::Waiting, ..input };
            let at_start = input_step(sizing, InputEvent::Resized(Err(links)));
            let unresized = input_step(resizing, InputEvent::Resized(Err(links)));
            let closed = input_step(waiting, InputEvent::Received(None));
            &&& at_start == unresized
            &&& unresized.0 is Failed
            &&& unresized.1 matches InputActionView::Fail(error) && error.message
                == "Could not resize exec terminal"@ && error.kind == AppErrorKind::Session
                && error.source == Some(links@)
            &&& closed.0 is Failed
            &&& closed.1 matches InputActionView::Fail(error) && error.message
                == "exec input channel closed before completion"@ && error.kind
                == AppErrorKind::Session && error.source is None
            &&& input_step(sizing, InputEvent::Resized(Ok(()))).1 is Receive
        }),
{
}

/// Input that was not written is answered with the reason: the errors of the write, or
/// that the container takes no input. The bytes of the budget are held until the answer
/// was handed over.
pub proof fn unwritten_input_is_answered_with_the_reason(
    input: ExecInputView,
    data: Vec<u8>,
    acknowledged: oneshot::Sender<Result<(), AppError>>,
    permit: InputPermit,
    links: Vec<ErrorLink>,
)
    requires
        input.phase is Waiting,
    ensures
        ({
            let command = ExecCommand::Stdin { data, acknowledged, permit };
            let (taken, first) = input_step(input, InputEvent::Received(Some(command)));
            let (failed, answer) = input_step(
                ExecInputView { phase: taken, ..input },
                InputEvent::Written(Err(links)),
            );
            let (written, thanks) = input_step(
                ExecInputView { phase: taken, ..input },
                InputEvent::Written(Ok(())),
            );
            &&& !input.stdin ==> (first matches InputActionView::Answer { to, result } && to
                == acknowledged && (result matches Err(error) && error.message
                == "exec session stdin is unavailable"@ && error.kind == AppErrorKind::Session
                && error.source is None)) && (taken matches InputPhaseView::Answering {
                permit: held,
                ..
            } && held == permit)
            &&& input.stdin ==> (taken matches InputPhaseView::Writing {
                acknowledged: to,
                permit: held,
            } && to == acknowledged && held == permit)
            &&& input.stdin ==> (answer matches InputActionView::Answer { to, result } && to
                == acknowledged && (result matches Err(error) && error.message
                == "Could not write exec input"@ && error.kind == AppErrorKind::Io && error.source
                == Some(links@))) && (failed matches InputPhaseView::Answering {
                permit: held,
                ..
            } && held == permit)
            &&& input.stdin ==> (thanks matches InputActionView::Answer { to, result } && to
                == acknowledged && result is Ok) && (written matches InputPhaseView::Answering {
                permit: held,
                ..
            } && held == permit)
        }),
{
}

/// A running session ends at once with the first thing that fails: with the failure of its
/// input, of a task that reads output or of such a task itself, or because its container
/// ended without a status.
pub proof fn a_running_session_ends_with_the_first_failure(
    drive: ExecDrive,
    error: AppError,
    links: Vec<ErrorLink>,
)
    requires
        drive.phase is Running,
        drive.readers > 0,
    ensures
        ({
            let input = drive_step(drive, DriveEvent::InputFailed(error));
            let failed = drive_step(drive, DriveEvent::Reader(ReaderEnd::Failed(error)));
            let crashed = drive_step(drive, DriveEvent::Reader(ReaderEnd::Crashed(links)));
            let silent = drive_step(drive, DriveEvent::Status(None));
            &&& input.0.phase is Finished && input.1 == DriveActionView::Finish(Err(error@))
            &&& failed.0.phase is Finished && failed.1 == DriveActionView::Finish(Err(error@))
            &&& crashed.0.phase is Finished && (crashed.1 matches DriveActionView::Finish(
                Err(reason),
            ) && reason.message == "exec output task failed"@ && reason.kind
                == AppErrorKind::Internal && reason.source == Some(links@))
            &&& silent.0.phase is Finished && (silent.1 matches DriveActionView::Finish(Err(reason))
                && reason.message == "exec session closed without an exit status"@ && reason.kind
                == AppErrorKind::Session && reason.source is None)
        }),
{
}

/// A task that has read its stream to the end ends nothing while the container runs: the
/// session waits on with one task less. While output is drained a failure still ends the
/// session, and takes the place of the status.
pub proof fn a_session_outlives_its_readers(
    drive: ExecDrive,
    status: ExecStatus,
    error: AppError,
)
    requires
        drive.readers > 0,
    ensures
        ({
            let running = ExecDrive { phase: DrivePhase::Running, ..drive };
            let draining = ExecDrive { phase: DrivePhase::Draining(status), ..drive };
            let (next, action) = drive_step(running, DriveEvent::Reader(ReaderEnd::Done));
            let broken = drive_step(draining, DriveEvent::Reader(ReaderEnd::Failed(error)));
            &&& action is Wait
            &&& next.phase is Running
            &&& next.readers == drive.readers - 1
            &&& broken.0.phase is Finished
            &&& broken.1 == DriveActionView::Finish(Err(error@))
        }),
{
}

/// A container that will tell no status has no session; any other one is waited for, with
/// all its readers.
pub proof fn a_session_needs_a_status(readers: usize)
    ensures
        drive_start(readers, true).0.phase is Running,
        drive_start(readers, true).0.readers == readers,
        drive_start(readers, true).1 is Wait,
        drive_start(readers, false).0.phase is Finished,
        drive_start(readers, false).1 matches DriveActionView::Finish(Err(error)) && error.message
            == "exec status receiver is unavailable"@ && error.kind == AppErrorKind::Session
            && error.source is None,
{
}

/// Once the input has failed or a session is over, nothing more is done whatever happens.
pub proof fn what_is_over_stays_over(
    input: ExecInputView,
    event: InputEvent,
    drive: ExecDrive,
    happened: DriveEvent,
)
    ensures
        input.phase is Failed ==> input_step(input, event).0 is Failed && input_step(
            input,
            event,
        ).1 is Ignore,
        drive.phase is Finished ==> drive_step(drive, happened) == (drive, DriveActionView::Ignore),
{
}

} // verus!
