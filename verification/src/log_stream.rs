//! A stream of pod log lines to the frontend, as decisions between outside steps.
//!
//! Each step asks for one action and is told how it went; what is sent, in which
//! order, and when the stream is over, is decided here.

use crate::text::text_opt;
use vstd::prelude::*;
use vstd::string::*;

verus! {

/// How many lines are asked for where a request names no number.
pub const DEFAULT_TAIL_LINES: i64 = 200;

/// A request for the log of a pod.
#[derive(Debug)]
pub struct PodLogStreamRequest {
    pub cluster_context: String,
    pub kubeconfig_env_var: Option<String>,
    pub namespace: String,
    pub pod_name: String,
    pub container: Option<String>,
    pub tail_lines: Option<i64>,
    pub since_seconds: Option<i64>,
}

/// What a [`PodLogStreamRequest`] says.
pub struct PodLogStreamRequestView {
    pub cluster_context: Seq<char>,
    pub kubeconfig_env_var: Option<Seq<char>>,
    pub namespace: Seq<char>,
    pub pod_name: Seq<char>,
    pub container: Option<Seq<char>>,
    pub tail_lines: Option<i64>,
    pub since_seconds: Option<i64>,
}

impl View for PodLogStreamRequest {
    type V = PodLogStreamRequestView;

    open spec fn view(&self) -> PodLogStreamRequestView {
        PodLogStreamRequestView {
            cluster_context: self.cluster_context@,
            kubeconfig_env_var: text_opt(self.kubeconfig_env_var),
            namespace: self.namespace@,
            pod_name: self.pod_name@,
            container: text_opt(self.container),
            tail_lines: self.tail_lines,
            since_seconds: self.since_seconds,
        }
    }
}

/// Where a log line comes from.
#[derive(Debug)]
pub struct LogLineSource {
    pub pod_name: String,
    pub container: Option<String>,
}

/// What a [`LogLineSource`] says.
pub struct LogLineSourceView {
    pub pod_name: Seq<char>,
    pub container: Option<Seq<char>>,
}

/// A message of the stream.
#[derive(Debug)]
pub enum StreamMessage {
    Error { stream_id: String, message: String },
    Status { stream_id: String, status: String, message: String },
    LogLine { stream_id: String, line: String, source: Option<LogLineSource> },
    Stopped { stream_id: String },
}

/// What a [`StreamMessage`] says.
pub enum StreamMessageView {
    Error { stream_id: Seq<char>, message: Seq<char> },
    Status { stream_id: Seq<char>, status: Seq<char>, message: Seq<char> },
    LogLine { stream_id: Seq<char>, line: Seq<char>, source: Option<LogLineSourceView> },
    Stopped { stream_id: Seq<char> },
}

impl View for StreamMessage {
    type V = StreamMessageView;

    open spec fn view(&self) -> StreamMessageView {
        match *self {
            StreamMessage::Error { stream_id, message } => StreamMessageView::Error {
                stream_id: stream_id@,
                message: message@,
            },
            StreamMessage::Status { stream_id, status, message } => StreamMessageView::Status {
                stream_id: stream_id@,
                status: status@,
                message: message@,
            },
            StreamMessage::LogLine { stream_id, line, source } => StreamMessageView::LogLine {
                stream_id: stream_id@,
                line: line@,
                source: match source {
                    Some(source) => Some(
                        LogLineSourceView {
                            pod_name: source.pod_name@,
                            container: text_opt(source.container),
                        },
                    ),
                    None => None,
                },
            },
            StreamMessage::Stopped { stream_id } => StreamMessageView::Stopped {
                stream_id: stream_id@,
            },
        }
    }
}

/// How the log of a pod is to be read.
#[derive(Debug)]
pub struct LogOptions {
    pub container: Option<String>,
    pub follow: bool,
    pub tail_lines: Option<i64>,
    pub since_seconds: Option<i64>,
    pub timestamps: bool,
}

/// What [`LogOptions`] say.
pub struct LogOptionsView {
    pub container: Option<Seq<char>>,
    pub follow: bool,
    pub tail_lines: Option<i64>,
    pub since_seconds: Option<i64>,
    pub timestamps: bool,
}

impl View for LogOptions {
    type V = LogOptionsView;

    open spec fn view(&self) -> LogOptionsView {
        LogOptionsView {
            container: text_opt(self.container),
            follow: self.follow,
            tail_lines: self.tail_lines,
            since_seconds: self.since_seconds,
            timestamps: self.timestamps,
        }
    }
}

/// The options of a request: the log is followed, with timestamps.
pub open spec fn options_of(request: PodLogStreamRequestView) -> LogOptionsView {
    LogOptionsView {
        container: request.container,
        follow: true,
        tail_lines: Some(
            match request.tail_lines {
                Some(lines) => lines,
                None => DEFAULT_TAIL_LINES,
            },
        ),
        since_seconds: request.since_seconds,
        timestamps: true,
    }
}

/// The options of a request: the log is followed, with timestamps.
pub fn log_options(request: &PodLogStreamRequest) -> (options: LogOptions)
    ensures
        options@ == options_of(request@),
        request.tail_lines is Some ==> options.tail_lines == request.tail_lines,
        request.tail_lines is None ==> options.tail_lines == Some(200i64),
        options.since_seconds == request.since_seconds,
        text_opt(options.container) == text_opt(request.container),
        options.follow,
        options.timestamps,
{
    LogOptions {
        container: request.container.clone(),
        follow: true,
        tail_lines: Some(
            match request.tail_lines {
                Some(lines) => lines,
                None => DEFAULT_TAIL_LINES,
            },
        ),
        since_seconds: request.since_seconds,
        timestamps: true,
    }
}

/// Where a stream stands.
#[derive(Debug, Clone, Copy, PartialEq, Eq, Structural)]
pub enum LogStreamPhase {
    /// The client is being made.
    Connecting,
    /// The first status is being sent.
    Announcing,
    /// The log is being opened.
    Opening,
    /// A line is being read.
    Reading,
    /// A line is being sent.
    Delivering,
    /// A failure of the log is being sent.
    Failing,
    /// The last message is being sent.
    Closing,
    /// The stream is over.
    Finished,
}

/// How the last action went.
#[derive(Debug)]
pub enum LogStreamEvent {
    Connected,
    ConnectFailed { message: String },
    /// A message was sent, or could not be.
    Sent(bool),
    Opened,
    OpenFailed { message: String },
    /// A line was read, or the end of the log.
    Line(Option<String>),
    ReadFailed { message: String },
}

/// What a [`LogStreamEvent`] says.
pub enum LogStreamEventView {
    Connected,
    ConnectFailed { message: Seq<char> },
    Sent(bool),
    Opened,
    OpenFailed { message: Seq<char> },
    Line(Option<Seq<char>>),
    ReadFailed { message: Seq<char> },
}

impl View for LogStreamEvent {
    type V = LogStreamEventView;

    open spec fn view(&self) -> LogStreamEventView {
        match *self {
            LogStreamEvent::Connected => LogStreamEventView::Connected,
            LogStreamEvent::ConnectFailed { message } => LogStreamEventView::ConnectFailed {
                message: message@,
            },
            LogStreamEvent::Sent(delivered) => LogStreamEventView::Sent(delivered),
            LogStreamEvent::Opened => LogStreamEventView::Opened,
            LogStreamEvent::OpenFailed { message } => LogStreamEventView::OpenFailed {
                message: message@,
            },
            LogStreamEvent::Line(line) => LogStreamEventView::Line(text_opt(line)),
            LogStreamEvent::ReadFailed { message } => LogStreamEventView::ReadFailed {
                message: message@,
            },
        }
    }
}

/// What is to be done next.
#[derive(Debug)]
pub enum LogStreamAction {
    /// Make a client for the context of the request.
    Connect,
    /// Send a message.
    Send(StreamMessage),
    /// Open the log of the pod of the request.
    Open(LogOptions),
    /// Read a line of the log.
    Read,
    /// Nothing: the stream is over.
    Finish,
    /// Nothing: the event does not answer the last action.
    Ignore,
}

/// What a [`LogStreamAction`] says.
pub enum LogStreamActionView {
    Connect,
    Send(StreamMessageView),
    Open(LogOptionsView),
    Read,
    Finish,
    Ignore,
}

impl View for LogStreamAction {
    type V = LogStreamActionView;

    open spec fn view(&self) -> LogStreamActionView {
        match *self {
            LogStreamAction::Connect => LogStreamActionView::Connect,
            LogStreamAction::Send(message) => LogStreamActionView::Send(message@),
            LogStreamAction::Open(options) => LogStreamActionView::Open(options@),
            LogStreamAction::Read => LogStreamActionView::Read,
            LogStreamAction::Finish => LogStreamActionView::Finish,
            LogStreamAction::Ignore => LogStreamActionView::Ignore,
        }
    }
}

/// A stream of log lines.
#[derive(Debug)]
pub struct PodLogStream {
    pub stream_id: String,
    pub request: PodLogStreamRequest,
    pub phase: LogStreamPhase,
}

/// What a [`PodLogStream`] is.
pub struct PodLogStreamView {
    pub stream_id: Seq<char>,
    pub request: PodLogStreamRequestView,
    pub phase: LogStreamPhase,
}

impl View for PodLogStream {
    type V = PodLogStreamView;

    open spec fn view(&self) -> PodLogStreamView {
        PodLogStreamView {
            stream_id: self.stream_id@,
            request: self.request@,
            phase: self.phase,
        }
    }
}

impl PodLogStreamView {
    /// The message that reports a failure.
    pub open spec fn error(self, message: Seq<char>) -> LogStreamActionView {
        LogStreamActionView::Send(StreamMessageView::Error { stream_id: self.stream_id, message })
    }

    /// The message that says that the log is streaming.
    pub open spec fn connected(self) -> LogStreamActionView {
        LogStreamActionView::Send(
            StreamMessageView::Status {
                stream_id: self.stream_id,
                status: "connected"@,
                message: "Streaming logs"@,
            },
        )
    }

    /// The message that carries a line.
    pub open spec fn log_line(self, line: Seq<char>) -> LogStreamActionView {
        LogStreamActionView::Send(
            StreamMessageView::LogLine {
                stream_id: self.stream_id,
                line,
                source: Some(
                    LogLineSourceView {
                        pod_name: self.request.pod_name,
                        container: self.request.container,
                    },
                ),
            },
        )
    }

    /// The last message.
    pub open spec fn stopped(self) -> LogStreamActionView {
        LogStreamActionView::Send(StreamMessageView::Stopped { stream_id: self.stream_id })
    }
}

/// Where a stream stands after `event`, and what is to be done then.
pub open spec fn log_stream_step(stream: PodLogStreamView, event: LogStreamEventView) -> (
    LogStreamPhase,
    LogStreamActionView,
) {
    match (stream.phase, event) {
        // Without a client there is one message, and no stream that could be stopped.
        (LogStreamPhase::Connecting, LogStreamEventView::ConnectFailed { message }) => (
            LogStreamPhase::Closing,
            stream.error(message),
        ),
        (LogStreamPhase::Connecting, LogStreamEventView::Connected) => (
            LogStreamPhase::Announcing,
            stream.connected(),
        ),
        (LogStreamPhase::Announcing, LogStreamEventView::Sent(true)) => (
            LogStreamPhase::Opening,
            LogStreamActionView::Open(options_of(stream.request)),
        ),
        (LogStreamPhase::Announcing, LogStreamEventView::Sent(false)) => (
            LogStreamPhase::Finished,
            LogStreamActionView::Finish,
        ),
        (LogStreamPhase::Opening, LogStreamEventView::Opened) => (
            LogStreamPhase::Reading,
            LogStreamActionView::Read,
        ),
        (LogStreamPhase::Opening, LogStreamEventView::OpenFailed { message }) => (
            LogStreamPhase::Failing,
            stream.error(message),
        ),
        (LogStreamPhase::Reading, LogStreamEventView::Line(Some(line))) => (
            LogStreamPhase::Delivering,
            stream.log_line(line),
        ),
        (LogStreamPhase::Reading, LogStreamEventView::Line(None)) => (
            LogStreamPhase::Closing,
            stream.stopped(),
        ),
        (LogStreamPhase::Reading, LogStreamEventView::ReadFailed { message }) => (
            LogStreamPhase::Failing,
            stream.error(message),
        ),
        (LogStreamPhase::Delivering, LogStreamEventView::Sent(true)) => (
            LogStreamPhase::Reading,
            LogStreamActionView::Read,
        ),
        (LogStreamPhase::Delivering, LogStreamEventView::Sent(false)) => (
            LogStreamPhase::Finished,
            LogStreamActionView::Finish,
        ),
        (LogStreamPhase::Failing, LogStreamEventView::Sent(_)) => (
            LogStreamPhase::Closing,
            stream.stopped(),
        ),
        (LogStreamPhase::Closing, LogStreamEventView::Sent(_)) => (
            LogStreamPhase::Finished,
            LogStreamActionView::Finish,
        ),
        (phase, _) => (phase, LogStreamActionView::Ignore),
    }
}

impl PodLogStream {
    /// A stream at its start; the first action is to connect.
    pub fn start(stream_id: String, request: PodLogStreamRequest) -> (started: (
        PodLogStream,
        LogStreamAction,
    ))
        ensures
            started.0@ == (PodLogStreamView {
                stream_id: stream_id@,
                request: request@,
                phase: LogStreamPhase::Connecting,
            }),
            started.1@ == LogStreamActionView::Connect,
    {
        (
            PodLogStream { stream_id, request, phase: LogStreamPhase::Connecting },
            LogStreamAction::Connect,
        )
    }

    fn error(&self, message: String) -> (action: LogStreamAction)
        ensures
            action@ == self@.error(message@),
    {
        LogStreamAction::Send(StreamMessage::Error { stream_id: self.stream_id.clone(), message })
    }

    fn connected(&self) -> (action: LogStreamAction)
        ensures
            action@ == self@.connected(),
    {
        LogStreamAction::Send(
            StreamMessage::Status {
                stream_id: self.stream_id.clone(),
                status: "connected".to_owned(),
                message: "Streaming logs".to_owned(),
            },
        )
    }

    fn log_line(&self, line: String) -> (action: LogStreamAction)
        ensures
            action@ == self@.log_line(line@),
    {
        LogStreamAction::Send(
            StreamMessage::LogLine {
                stream_id: self.stream_id.clone(),
                line,
                source: Some(
                    LogLineSource {
                        pod_name: self.request.pod_name.clone(),
                        container: self.request.container.clone(),
                    },
                ),
            },
        )
    }

    fn stopped(&self) -> (action: LogStreamAction)
        ensures
            action@ == self@.stopped(),
    {
        LogStreamAction::Send(StreamMessage::Stopped { stream_id: self.stream_id.clone() })
    }

    /// Takes how the last action went, and says what is to be done next.
    pub fn advance(&mut self, event: LogStreamEvent) -> (action: LogStreamAction)
        ensures
            (final(self).phase, action@) == log_stream_step(old(self)@, event@),
            final(self)@ == (PodLogStreamView { phase: final(self).phase, ..old(self)@ }),
    {
        match (self.phase, event) {
            (LogStreamPhase::Connecting, LogStreamEvent::ConnectFailed { message }) => {
                self.phase = LogStreamPhase::Closing;
                self.error(message)
            },
            (LogStreamPhase::Connecting, LogStreamEvent::Connected) => {
                self.phase = LogStreamPhase::Announcing;
                self.connected()
            },
            (LogStreamPhase::Announcing, LogStreamEvent::Sent(delivered)) => {
                if delivered {
                    self.phase = LogStreamPhase::Opening;
                    LogStreamAction::Open(log_options(&self.request))
                } else {
                    self.phase = LogStreamPhase::Finished;
                    LogStreamAction::Finish
                }
            },
            (LogStreamPhase::Opening, LogStreamEvent::Opened) => {
                self.phase = LogStreamPhase::Reading;
                LogStreamAction::Read
            },
            (LogStreamPhase::Opening, LogStreamEvent::OpenFailed { message }) => {
                self.phase = LogStreamPhase::Failing;
                self.error(message)
            },
            (LogStreamPhase::Reading, LogStreamEvent::Line(Some(line))) => {
                self.phase = LogStreamPhase::Delivering;
                self.log_line(line)
            },
            (LogStreamPhase::Reading, LogStreamEvent::Line(None)) => {
                self.phase = LogStreamPhase::Closing;
                self.stopped()
            },
            (LogStreamPhase::Reading, LogStreamEvent::ReadFailed { message }) => {
                self.phase = LogStreamPhase::Failing;
                self.error(message)
            },
            (LogStreamPhase::Delivering, LogStreamEvent::Sent(delivered)) => {
                if delivered {
                    self.phase = LogStreamPhase::Reading;
                    LogStreamAction::Read
                } else {
                    self.phase = LogStreamPhase::Finished;
                    LogStreamAction::Finish
                }
            },
            (LogStreamPhase::Failing, LogStreamEvent::Sent(_)) => {
                self.phase = LogStreamPhase::Closing;
                self.stopped()
            },
            (LogStreamPhase::Closing, LogStreamEvent::Sent(_)) => {
                self.phase = LogStreamPhase::Finished;
                LogStreamAction::Finish
            },
            _ => LogStreamAction::Ignore,
        }
    }
}

/// A stream after `events`.
pub open spec fn after_events(
    stream: PodLogStreamView,
    events: Seq<LogStreamEventView>,
) -> PodLogStreamView
    decreases events.len(),
{
    if events.len() == 0 {
        stream
    } else {
        let next = log_stream_step(stream, events.first()).0;
        after_events(PodLogStreamView { phase: next, ..stream }, events.drop_first())
    }
}

/// The messages that a stream sends while it is told `events`.
pub open spec fn messages(
    stream: PodLogStreamView,
    events: Seq<LogStreamEventView>,
) -> Seq<StreamMessageView>
    decreases events.len(),
{
    if events.len() == 0 {
        seq![]
    } else {
        let (next, action) = log_stream_step(stream, events.first());
        let later = messages(PodLogStreamView { phase: next, ..stream }, events.drop_first());
        match action {
            LogStreamActionView::Send(message) => seq![message] + later,
            _ => later,
        }
    }
}

proof fn lemma_closing_is_silent(stream: PodLogStreamView, events: Seq<LogStreamEventView>)
    requires
        stream.phase is Closing || stream.phase is Finished,
    ensures
        messages(stream, events) == Seq::<StreamMessageView>::empty(),
    decreases events.len(),
{
    if events.len() > 0 {
        let next = log_stream_step(stream, events.first()).0;
        lemma_closing_is_silent(PodLogStreamView { phase: next, ..stream }, events.drop_first());
    }
}

/// Nothing is sent behind the message that a stream stopped.
pub proof fn stopped_is_the_last_message(
    stream: PodLogStreamView,
    events: Seq<LogStreamEventView>,
    at: int,
)
    requires
        0 <= at < messages(stream, events).len(),
        messages(stream, events)[at] is Stopped,
    ensures
        at == messages(stream, events).len() - 1,
    decreases events.len(),
{
    let (phase, action) = log_stream_step(stream, events.first());
    let next = PodLogStreamView { phase, ..stream };
    let rest = events.drop_first();
    match action {
        LogStreamActionView::Send(message) => {
            assert(messages(stream, events) =~= seq![message] + messages(next, rest));
            if at == 0 {
                lemma_closing_is_silent(next, rest);
            } else {
                stopped_is_the_last_message(next, rest, at - 1);
            }
        },
        _ => {
            stopped_is_the_last_message(next, rest, at);
        },
    }
}

/// Once the first status or a line could not be sent, nothing more is sent.
pub proof fn a_closed_channel_ends_the_stream(
    stream: PodLogStreamView,
    events: Seq<LogStreamEventView>,
)
    requires
        stream.phase is Announcing || stream.phase is Delivering,
        events.len() > 0,
        events.first() == LogStreamEventView::Sent(false),
    ensures
        messages(stream, events) == Seq::<StreamMessageView>::empty(),
{
    lemma_closing_is_silent(
        PodLogStreamView { phase: LogStreamPhase::Finished, ..stream },
        events.drop_first(),
    );
}

/// Every message of a stream carries the name of the stream.
pub proof fn messages_carry_the_stream_id(
    stream: PodLogStreamView,
    events: Seq<LogStreamEventView>,
    at: int,
)
    requires
        0 <= at < messages(stream, events).len(),
    ensures
        match messages(stream, events)[at] {
            StreamMessageView::Error { stream_id, .. } => stream_id == stream.stream_id,
            StreamMessageView::Status { stream_id, .. } => stream_id == stream.stream_id,
            StreamMessageView::LogLine { stream_id, .. } => stream_id == stream.stream_id,
            StreamMessageView::Stopped { stream_id } => stream_id == stream.stream_id,
        },
    decreases events.len(),
{
    let (phase, action) = log_stream_step(stream, events.first());
    let next = PodLogStreamView { phase, ..stream };
    let rest = events.drop_first();
    match action {
        LogStreamActionView::Send(message) => {
            assert(messages(stream, events) =~= seq![message] + messages(next, rest));
            if at > 0 {
                messages_carry_the_stream_id(next, rest, at - 1);
            }
        },
        _ => {
            messages_carry_the_stream_id(next, rest, at);
        },
    }
}

/// The events of a log that is read to its end, from where a line is read.
pub open spec fn whole_log(lines: Seq<Seq<char>>) -> Seq<LogStreamEventView>
    decreases lines.len(),
{
    if lines.len() == 0 {
        seq![LogStreamEventView::Line(None), LogStreamEventView::Sent(true)]
    } else {
        seq![LogStreamEventView::Line(Some(lines.first())), LogStreamEventView::Sent(true)]
            + whole_log(lines.drop_first())
    }
}

/// A log that is read to its end is delivered line by line, in order, and then the
/// stream is stopped.
pub proof fn every_line_is_delivered_in_order(stream: PodLogStreamView, lines: Seq<Seq<char>>)
    requires
        stream.phase is Reading,
    ensures
        messages(stream, whole_log(lines)).len() == lines.len() + 1,
        forall|i: int|
            0 <= i < lines.len() ==> LogStreamActionView::Send(
                #[trigger] messages(stream, whole_log(lines))[i],
            ) == stream.log_line(lines[i]),
        LogStreamActionView::Send(messages(stream, whole_log(lines)).last()) == stream.stopped(),
        after_events(stream, whole_log(lines)).phase is Finished,
    decreases lines.len(),
{
    let events = whole_log(lines);
    reveal_with_fuel(messages, 3);
    reveal_with_fuel(after_events, 3);
    if lines.len() == 0 {
        assert(events.drop_first() =~= seq![LogStreamEventView::Sent(true)]);
        assert(events.drop_first().drop_first() =~= seq![]);
    } else {
        let later = whole_log(lines.drop_first());
        assert(events.drop_first() =~= seq![LogStreamEventView::Sent(true)] + later);
        assert(events.drop_first().drop_first() =~= later);
        every_line_is_delivered_in_order(stream, lines.drop_first());
        let sent = messages(stream, events);
        let first = match stream.log_line(lines[0]) {
            LogStreamActionView::Send(message) => message,
            _ => arbitrary(),
        };
        assert(PodLogStreamView { phase: LogStreamPhase::Reading, ..stream } == stream);
        assert(sent =~= seq![first] + messages(stream, later));
        assert forall|i: int| 0 <= i < lines.len() implies LogStreamActionView::Send(
            #[trigger] sent[i],
        ) == stream.log_line(lines[i]) by {
            if i > 0 {
                assert(sent[i] == messages(stream, later)[i - 1]);
                assert(lines.drop_first()[i - 1] == lines[i]);
            }
        }
        assert(sent.last() == messages(stream, later).last());
    }
}

/// The log is opened as the request asks: with the very number of lines that it names,
/// whatever that is, and with 200 only where it names none; for its container and since
/// the time that it names. It is always followed, with timestamps.
pub proof fn the_log_is_opened_as_the_request_asks(request: PodLogStreamRequestView)
    ensures
        request.tail_lines matches Some(lines) ==> options_of(request).tail_lines == Some(lines),
        request.tail_lines is None ==> options_of(request).tail_lines == Some(200i64),
        options_of(request).container == request.container,
        options_of(request).since_seconds == request.since_seconds,
        options_of(request).follow,
        options_of(request).timestamps,
{
}

/// Requests that name different numbers of lines open their logs differently.
pub proof fn different_numbers_of_lines_stay_different(
    a: PodLogStreamRequestView,
    b: PodLogStreamRequestView,
)
    requires
        a.tail_lines is Some,
        b.tail_lines is Some,
        a.tail_lines != b.tail_lines,
    ensures
        options_of(a).tail_lines != options_of(b).tail_lines,
{
}

/// A stream that cannot connect sends its one failure and nothing else, whatever happens
/// then.
pub proof fn a_stream_that_cannot_connect_tells_so(
    stream: PodLogStreamView,
    message: Seq<char>,
    rest: Seq<LogStreamEventView>,
)
    requires
        stream.phase is Connecting,
    ensures
        messages(stream, seq![LogStreamEventView::ConnectFailed { message }] + rest) == seq![
            StreamMessageView::Error { stream_id: stream.stream_id, message },
        ],
{
    let events = seq![LogStreamEventView::ConnectFailed { message }] + rest;
    assert(events.drop_first() =~= rest);
    let next = PodLogStreamView { phase: LogStreamPhase::Closing, ..stream };
    lemma_closing_is_silent(next, rest);
    assert(messages(stream, events) =~= seq![
        StreamMessageView::Error { stream_id: stream.stream_id, message },
    ]);
}

/// A stream that is connected says so first, and opens the log only once that was sent.
pub proof fn a_stream_says_that_it_is_connected(stream: PodLogStreamView)
    requires
        stream.phase is Connecting,
    ensures
        ({
            let (next, action) = log_stream_step(stream, LogStreamEventView::Connected);
            let announced = PodLogStreamView { phase: next, ..stream };
            let (opening, open) = log_stream_step(announced, LogStreamEventView::Sent(true));
            let opened = PodLogStreamView { phase: opening, ..stream };
            &&& action == LogStreamActionView::Send(
                StreamMessageView::Status {
                    stream_id: stream.stream_id,
                    status: "connected"@,
                    message: "Streaming logs"@,
                },
            )
            &&& open == LogStreamActionView::Open(options_of(stream.request))
            &&& log_stream_step(opened, LogStreamEventView::Opened).1 is Read
            &&& log_stream_step(opened, LogStreamEventView::Opened).0 is Reading
            &&& opening is Opening
        }),
{
}

/// A log that cannot be opened, or that breaks while it is read, is told with its reason,
/// and the stream is stopped then, whether that was heard or not.
pub proof fn a_broken_log_is_told_and_the_stream_stopped(
    stream: PodLogStreamView,
    message: Seq<char>,
    heard: bool,
)
    requires
        stream.phase is Opening || stream.phase is Reading,
    ensures
        messages(
            stream,
            seq![
                if stream.phase is Opening {
                    LogStreamEventView::OpenFailed { message }
                } else {
                    LogStreamEventView::ReadFailed { message }
                },
                LogStreamEventView::Sent(heard),
            ],
        ) == seq![
            StreamMessageView::Error { stream_id: stream.stream_id, message },
            StreamMessageView::Stopped { stream_id: stream.stream_id },
        ],
{
    let broken = if stream.phase is Opening {
        LogStreamEventView::OpenFailed { message }
    } else {
        LogStreamEventView::ReadFailed { message }
    };
    let events = seq![broken, LogStreamEventView::Sent(heard)];
    reveal_with_fuel(messages, 3);
    assert(events.drop_first() =~= seq![LogStreamEventView::Sent(heard)]);
    assert(events.drop_first().drop_first() =~= seq![]);
    assert(messages(stream, events) =~= seq![
        StreamMessageView::Error { stream_id: stream.stream_id, message },
        StreamMessageView::Stopped { stream_id: stream.stream_id },
    ]);
}

/// Each line of a log is sent as it was read, with the pod and the container of the
/// request, one message for each line and in their order; the message that the stream
/// stopped comes behind the last one.
pub proof fn lines_are_sent_as_they_were_read(stream: PodLogStreamView, lines: Seq<Seq<char>>)
    requires
        stream.phase is Reading,
    ensures
        ({
            let sent = messages(stream, whole_log(lines));
            &&& sent.len() == lines.len() + 1
            &&& forall|i: int|
                0 <= i < lines.len() ==> #[trigger] sent[i] == (StreamMessageView::LogLine {
                    stream_id: stream.stream_id,
                    line: lines[i],
                    source: Some(
                        LogLineSourceView {
                            pod_name: stream.request.pod_name,
                            container: stream.request.container,
                        },
                    ),
                })
            &&& sent.last() == (StreamMessageView::Stopped { stream_id: stream.stream_id })
        }),
{
    every_line_is_delivered_in_order(stream, lines);
    let sent = messages(stream, whole_log(lines));
    assert forall|i: int| 0 <= i < lines.len() implies #[trigger] sent[i] == (
    StreamMessageView::LogLine {
        stream_id: stream.stream_id,
        line: lines[i],
        source: Some(
            LogLineSourceView {
                pod_name: stream.request.pod_name,
                container: stream.request.container,
            },
        ),
    }) by {
        assert(LogStreamActionView::Send(sent[i]) == stream.log_line(lines[i]));
    }
}

} // verus!
