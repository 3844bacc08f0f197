//! The output of an exec session on its way to the frontend, as decisions between
//! outside steps.

use crate::error::{failure, AppError, AppErrorKind, AppErrorView, ErrorLink};
use crate::exec_message::{ExecMessageView, PodExecSessionMessage};
use crate::utf8::{
    chunks_keep_the_text, complete_text, incomplete_scalar, lossy_text, piece, piece_len,
    pieces_are_taken_one_by_one, stream_text, take_utf8_prefix, utf8_lossy, waiting_bytes,
};
use vstd::prelude::*;
use vstd::string::*;

verus! {

/// Where the output of a stream stands.
#[derive(Debug, Clone, Copy, PartialEq, Eq, Structural)]
pub enum OutputPhase {
    /// The stream is being read.
    Reading,
    /// A piece of text is being sent.
    Delivering,
    /// The last piece of text is being sent.
    Flushing,
    /// The stream is over.
    Finished,
}

/// The output of one stream of a session.
#[derive(Debug)]
pub struct ExecOutput {
    pub session_id: String,
    pub stream: String,
    pub pending: Vec<u8>,
    pub phase: OutputPhase,
}

/// What an [`ExecOutput`] is.
pub struct ExecOutputView {
    pub session_id: Seq<char>,
    pub stream: Seq<char>,
    pub pending: Seq<u8>,
    pub phase: OutputPhase,
}

impl View for ExecOutput {
    type V = ExecOutputView;

    open spec fn view(&self) -> ExecOutputView {
        ExecOutputView {
            session_id: self.session_id@,
            stream: self.stream@,
            pending: self.pending@,
            phase: self.phase,
        }
    }
}

/// How the last action went.
#[derive(Debug)]
pub enum OutputEvent {
    /// Bytes were read; none at the end of the stream.
    Read(Vec<u8>),
    /// The stream could not be read, for these errors.
    ReadFailed(Vec<ErrorLink>),
    /// A message was sent, or could not be.
    Sent(bool),
}

/// What an [`OutputEvent`] says.
pub enum OutputEventView {
    Read(Seq<u8>),
    ReadFailed(Seq<ErrorLink>),
    Sent(bool),
}

impl View for OutputEvent {
    type V = OutputEventView;

    open spec fn view(&self) -> OutputEventView {
        match *self {
            OutputEvent::Read(bytes) => OutputEventView::Read(bytes@),
            OutputEvent::ReadFailed(links) => OutputEventView::ReadFailed(links@),
            OutputEvent::Sent(delivered) => OutputEventView::Sent(delivered),
        }
    }
}

/// What is to be done next.
#[derive(Debug)]
pub enum OutputAction {
    /// Read from the stream.
    Read,
    /// Send a message.
    Send(PodExecSessionMessage),
    /// Nothing: the stream is over.
    Finish(Result<(), AppError>),
    /// Nothing: the event does not answer the last action.
    Ignore,
}

/// What an [`OutputAction`] says.
pub enum OutputActionView {
    Read,
    Send(ExecMessageView),
    Finish(Result<(), AppErrorView>),
    Ignore,
}

impl View for OutputAction {
    type V = OutputActionView;

    open spec fn view(&self) -> OutputActionView {
        match *self {
            OutputAction::Read => OutputActionView::Read,
            OutputAction::Send(message) => OutputActionView::Send(message@),
            OutputAction::Finish(result) => OutputActionView::Finish(
                match result {
                    Ok(()) => Ok(()),
                    Err(error) => Err(error@),
                },
            ),
            OutputAction::Ignore => OutputActionView::Ignore,
        }
    }
}

impl ExecOutputView {
    /// The message that carries a piece of text.
    pub open spec fn output(self, data: Seq<char>) -> OutputActionView {
        OutputActionView::Send(
            ExecMessageView::Output { session_id: self.session_id, stream: self.stream, data },
        )
    }

    /// The stream with `bytes` behind those that wait: the next piece of text is sent if
    /// there is one, and otherwise more is read.
    pub open spec fn with_bytes(self, bytes: Seq<u8>) -> (ExecOutputView, OutputActionView) {
        let pending = self.pending + bytes;
        if pending.len() == 0 || incomplete_scalar(pending) {
            (
                ExecOutputView { pending, phase: OutputPhase::Reading, ..self },
                OutputActionView::Read,
            )
        } else {
            (
                ExecOutputView {
                    pending: pending.skip(piece_len(pending)),
                    phase: OutputPhase::Delivering,
                    ..self
                },
                self.output(piece(pending)),
            )
        }
    }

    /// The stream at its end.
    pub open spec fn over(self, result: Result<(), AppErrorView>) -> (
        ExecOutputView,
        OutputActionView,
    ) {
        (
            ExecOutputView { phase: OutputPhase::Finished, ..self },
            OutputActionView::Finish(result),
        )
    }
}

/// The failure of a stream whose text could not be sent.
pub open spec fn output_channel_closed() -> AppErrorView {
    failure("exec output channel closed"@, AppErrorKind::Session)
}

/// The failure of a stream that could not be read.
pub open spec fn output_unreadable(links: Seq<ErrorLink>) -> AppErrorView {
    AppErrorView {
        source: Some(links),
        ..failure("Could not read exec output"@, AppErrorKind::Io)
    }
}

/// The stream after `event`, and what is to be done then. At the end of the stream what
/// waits still is sent, however that goes.
pub open spec fn output_step(output: ExecOutputView, event: OutputEventView) -> (
    ExecOutputView,
    OutputActionView,
) {
    match (output.phase, event) {
        (OutputPhase::Reading, OutputEventView::Read(bytes)) => if bytes.len() > 0 {
            output.with_bytes(bytes)
        } else if output.pending.len() > 0 {
            (
                ExecOutputView { pending: seq![], phase: OutputPhase::Flushing, ..output },
                output.output(lossy_text(output.pending)),
            )
        } else {
            output.over(Ok(()))
        },
        (OutputPhase::Reading, OutputEventView::ReadFailed(links)) => output.over(
            Err(output_unreadable(links)),
        ),
        (OutputPhase::Delivering, OutputEventView::Sent(true)) => output.with_bytes(seq![]),
        (OutputPhase::Delivering, OutputEventView::Sent(false)) => output.over(
            Err(output_channel_closed()),
        ),
        (OutputPhase::Flushing, OutputEventView::Sent(_)) => output.over(Ok(())),
        _ => (output, OutputActionView::Ignore),
    }
}

impl ExecOutput {
    /// A stream at its start; the first action is to read.
    pub fn start(session_id: String, stream: &str) -> (started: (ExecOutput, OutputAction))
        ensures
            started.0@ == (ExecOutputView {
                session_id: session_id@,
                stream: stream@,
                pending: seq![],
                phase: OutputPhase::Reading,
            }),
            started.1@ == OutputActionView::Read,
    {
        let output: ExecOutput = ExecOutput {
            session_id,
            stream: stream.to_owned(),
            pending: Vec::new(),
            phase: OutputPhase::Reading,
        };
        assert(output.pending@ =~= seq![]);
        (output, OutputAction::Read)
    }

    fn output(&self, data: String) -> (action: OutputAction)
        ensures
            action@ == self@.output(data@),
    {
        OutputAction::Send(
            PodExecSessionMessage::Output {
                session_id: self.session_id.clone(),
                stream: self.stream.clone(),
                data,
            },
        )
    }

    fn next_piece(&mut self) -> (action: OutputAction)
        ensures
            (final(self)@, action@) == old(self)@.with_bytes(seq![]),
    {
        let ghost before = self@;
        assert(before.pending + seq![] =~= before.pending);
        match take_utf8_prefix(&mut self.pending) {
            Some(data) => {
                self.phase = OutputPhase::Delivering;
                self.output(data)
            },
            None => {
                self.phase = OutputPhase::Reading;
                OutputAction::Read
            },
        }
    }

    /// Takes how the last action went, and says what is to be done next.
    pub fn advance(&mut self, event: OutputEvent) -> (action: OutputAction)
        ensures
            (final(self)@, action@) == output_step(old(self)@, event@),
    {
        let ghost before = self@;
        match (self.phase, event) {
            (OutputPhase::Reading, OutputEvent::Read(bytes)) => {
                if bytes.len() > 0 {
                    let mut bytes: Vec<u8> = bytes;
                    self.pending.append(&mut bytes);
                    assert(self.pending@ + seq![] =~= self.pending@);
                    self.next_piece()
                } else if self.pending.len() > 0 {
                    let mut pending: Vec<u8> = Vec::new();
                    pending.append(&mut self.pending);
                    assert(pending@ =~= before.pending);
                    self.phase = OutputPhase::Flushing;
                    assert(self.pending@ =~= seq![]);
                    self.output(utf8_lossy(pending))
                } else {
                    self.phase = OutputPhase::Finished;
                    OutputAction::Finish(Ok(()))
                }
            },
            (OutputPhase::Reading, OutputEvent::ReadFailed(links)) => {
                self.phase = OutputPhase::Finished;
                OutputAction::Finish(
                    Err(
                        AppError::new("Could not read exec output", AppErrorKind::Io).with_source(
                            links,
                        ),
                    ),
                )
            },
            (OutputPhase::Delivering, OutputEvent::Sent(delivered)) => {
                if delivered {
                    self.next_piece()
                } else {
                    self.phase = OutputPhase::Finished;
                    OutputAction::Finish(
                        Err(AppError::new("exec output channel closed", AppErrorKind::Session)),
                    )
                }
            },
            (OutputPhase::Flushing, OutputEvent::Sent(_)) => {
                self.phase = OutputPhase::Finished;
                OutputAction::Finish(Ok(()))
            },
            _ => OutputAction::Ignore,
        }
    }
}

/// The text of a message that carries output.
pub open spec fn text_of(action: OutputActionView) -> Seq<char> {
    match action {
        OutputActionView::Send(ExecMessageView::Output { data, .. }) => data,
        _ => seq![],
    }
}

/// The text that is sent until the stream is read again, from a step on, where every
/// message arrives; and the stream then.
pub open spec fn delivered(output: ExecOutputView, action: OutputActionView) -> (
    Seq<char>,
    ExecOutputView,
)
    decreases
            output.pending.len(),
            if output.phase is Delivering {
                1int
            } else {
                0int
            },
{
    if output.phase is Delivering {
        proof {
            pieces_are_taken_one_by_one(output.pending);
            assert(output.pending + Seq::<u8>::empty() =~= output.pending);
        }
        let (next, then_action) = output_step(output, OutputEventView::Sent(true));
        let (rest, end) = delivered(next, then_action);
        (text_of(action) + rest, end)
    } else {
        (text_of(action), output)
    }
}

/// The text that is sent of a stream that is read as `chunks` and then ends, where every
/// message arrives.
pub open spec fn sent_text(output: ExecOutputView, chunks: Seq<Seq<u8>>) -> Seq<char>
    decreases chunks.len(),
{
    if chunks.len() == 0 {
        text_of(output_step(output, OutputEventView::Read(seq![])).1)
    } else {
        let (next, action) = output_step(output, OutputEventView::Read(chunks.first()));
        let (text, end) = delivered(next, action);
        text + sent_text(end, chunks.drop_first())
    }
}

proof fn lemma_delivered(output: ExecOutputView, bytes: Seq<u8>)
    ensures
        ({
            let (next, action) = output.with_bytes(bytes);
            delivered(next, action) == (
                complete_text(output.pending + bytes),
                ExecOutputView {
                    pending: waiting_bytes(output.pending + bytes),
                    phase: OutputPhase::Reading,
                    ..output
                },
            )
        }),
    decreases (output.pending + bytes).len(),
{
    let pending = output.pending + bytes;
    let (next, action) = output.with_bytes(bytes);
    pieces_are_taken_one_by_one(pending);
    if pending.len() == 0 || incomplete_scalar(pending) {
        assert(complete_text(pending) =~= seq![]);
        assert(waiting_bytes(pending) == pending);
    } else {
        assert(next.pending + seq![] =~= next.pending);
        lemma_delivered(next, seq![]);
        let (after, then_action) = output_step(next, OutputEventView::Sent(true));
        assert((after, then_action) == next.with_bytes(seq![]));
        assert(delivered(next, action).0 =~= piece(pending) + complete_text(next.pending));
    }
}

/// Whatever the chunks in which a stream is read, the text that is sent is the text of
/// all its bytes: nothing is lost, doubled or torn where every message arrives.
pub proof fn sent_text_is_the_text_of_all_bytes(output: ExecOutputView, chunks: Seq<Seq<u8>>)
    requires
        output.phase is Reading,
        forall|i: int| 0 <= i < chunks.len() ==> (#[trigger] chunks[i]).len() > 0,
    ensures
        sent_text(output, chunks) == lossy_text(output.pending + chunks.flatten()),
    decreases chunks.len(),
{
    lemma_sent_text(output, chunks);
    chunks_keep_the_text(output.pending, chunks);
}

proof fn lemma_sent_text(output: ExecOutputView, chunks: Seq<Seq<u8>>)
    requires
        output.phase is Reading,
        forall|i: int| 0 <= i < chunks.len() ==> (#[trigger] chunks[i]).len() > 0,
    ensures
        sent_text(output, chunks) == stream_text(output.pending, chunks),
    decreases chunks.len(),
{
    if chunks.len() == 0 {
        if output.pending.len() == 0 {
            assert(output.pending =~= seq![]);
            assert(lossy_text(output.pending) =~= seq![]);
        }
    } else {
        let first = chunks.first();
        let rest = chunks.drop_first();
        assert(first == chunks[0]);
        assert forall|i: int| 0 <= i < rest.len() implies (#[trigger] rest[i]).len() > 0 by {
            assert(rest[i] == chunks[i + 1]);
        }
        lemma_delivered(output, first);
        let (next, action) = output_step(output, OutputEventView::Read(first));
        let end = delivered(next, action).1;
        lemma_sent_text(end, rest);
    }
}

/// Once a message could not be sent, the stream fails and nothing more is sent of it.
pub proof fn a_closed_channel_ends_the_output(output: ExecOutputView, event: OutputEventView)
    requires
        output.phase is Delivering,
    ensures
        output_step(output, OutputEventView::Sent(false)) == output.over(
            Err(output_channel_closed()),
        ),
        output_step(output_step(output, OutputEventView::Sent(false)).0, event).1 is Ignore,
{
}

/// Every message of a stream is output that carries the session and the stream that it
/// came from.
pub proof fn output_carries_its_session_and_stream(output: ExecOutputView, event: OutputEventView)
    ensures
        output_step(output, event).0.session_id == output.session_id,
        output_step(output, event).0.stream == output.stream,
        output_step(output, event).1 matches OutputActionView::Send(message) ==> (
        message matches ExecMessageView::Output { session_id, stream, .. } && session_id
            == output.session_id && stream == output.stream),
{
}

/// A stream that was read to its end is over and well, once what waited was sent, whether
/// that was heard or not. One that could not be read fails with the errors of the read.
pub proof fn a_stream_ends_well_unless_it_breaks(
    output: ExecOutputView,
    links: Seq<ErrorLink>,
    heard: bool,
)
    requires
        output.phase is Reading,
    ensures
        ({
            let (last, action) = output_step(output, OutputEventView::Read(seq![]));
            let broken = output_step(output, OutputEventView::ReadFailed(links));
            &&& output.pending.len() == 0 ==> last.phase is Finished && action
                == OutputActionView::Finish(Ok(()))
            &&& output.pending.len() > 0 ==> action is Send && last.pending.len() == 0
                && output_step(last, OutputEventView::Sent(heard)).1 == OutputActionView::Finish(
                Ok(()),
            )
            &&& broken.0.phase is Finished
            &&& broken.1 matches OutputActionView::Finish(Err(error)) && error.message
                == "Could not read exec output"@ && error.kind == AppErrorKind::Io && error.source
                == Some(links)
        }),
{
}

/// A stream whose text could not be sent fails, and says that its channel is closed.
pub proof fn unsent_output_is_a_failure(output: ExecOutputView)
    requires
        output.phase is Delivering,
    ensures
        output_step(output, OutputEventView::Sent(false)).0.phase is Finished,
        output_step(output, OutputEventView::Sent(false)).1 matches OutputActionView::Finish(
            Err(error),
        ) && error.message == "exec output channel closed"@ && error.kind == AppErrorKind::Session
            && error.source is None,
{
}

} // verus!
