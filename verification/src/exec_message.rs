//! What the frontend is told of an exec session, and how a session ended.

use crate::registry::{PodExecSessionSummary, SummaryView};
use crate::text::{integer_of, integer_within, parse_i32, text_opt, text_opt_is};
use vstd::prelude::*;
use vstd::string::*;

verus! {

/// A message of an exec session.
#[derive(Debug)]
pub enum PodExecSessionMessage {
    Started { session_id: String, summary: PodExecSessionSummary },
    Status { session_id: String, status: String, message: String },
    Output { session_id: String, stream: String, data: String },
    Error { session_id: String, message: String },
    Exited {
        session_id: String,
        exit_code: Option<i32>,
        reason: Option<String>,
        message: Option<String>,
    },
    Stopped { session_id: String },
}

/// What a [`PodExecSessionMessage`] says.
pub enum ExecMessageView {
    Started { session_id: Seq<char>, summary: SummaryView },
    Status { session_id: Seq<char>, status: Seq<char>, message: Seq<char> },
    Output { session_id: Seq<char>, stream: Seq<char>, data: Seq<char> },
    Error { session_id: Seq<char>, message: Seq<char> },
    Exited {
        session_id: Seq<char>,
        exit_code: Option<i32>,
        reason: Option<Seq<char>>,
        message: Option<Seq<char>>,
    },
    Stopped { session_id: Seq<char> },
}

impl View for PodExecSessionMessage {
    type V = ExecMessageView;

    open spec fn view(&self) -> ExecMessageView {
        match *self {
            PodExecSessionMessage::Started { session_id, summary } => ExecMessageView::Started {
                session_id: session_id@,
                summary: summary@,
            },
            PodExecSessionMessage::Status { session_id, status, message } =>
                ExecMessageView::Status {
                    session_id: session_id@,
                    status: status@,
                    message: message@,
                },
            PodExecSessionMessage::Output { session_id, stream, data } => ExecMessageView::Output {
                session_id: session_id@,
                stream: stream@,
                data: data@,
            },
            PodExecSessionMessage::Error { session_id, message } => ExecMessageView::Error {
                session_id: session_id@,
                message: message@,
            },
            PodExecSessionMessage::Exited { session_id, exit_code, reason, message } =>
                ExecMessageView::Exited {
                    session_id: session_id@,
                    exit_code,
                    reason: text_opt(reason),
                    message: text_opt(message),
                },
            PodExecSessionMessage::Stopped { session_id } => ExecMessageView::Stopped {
                session_id: session_id@,
            },
        }
    }
}

/// One cause of a status.
#[derive(Debug)]
pub struct ExecStatusCause {
    pub reason: Option<String>,
    pub message: Option<String>,
}

/// The details of a status.
#[derive(Debug)]
pub struct ExecStatusDetails {
    pub causes: Option<Vec<ExecStatusCause>>,
}

/// The status that a container ends with.
#[derive(Debug)]
pub struct ExecStatus {
    pub reason: Option<String>,
    pub message: Option<String>,
    pub details: Option<ExecStatusDetails>,
}

/// The exit code that a cause tells, if it tells one.
pub open spec fn cause_exit_code(cause: ExecStatusCause) -> Option<i32> {
    if text_opt(cause.reason) == Some("ExitCode"@) {
        match cause.message {
            Some(message) => match integer_within(message@, i32::MIN as int, i32::MAX as int) {
                Some(code) => Some(code as i32),
                None => None,
            },
            None => None,
        }
    } else {
        None
    }
}

/// The first exit code that any of `causes` tells.
pub open spec fn first_exit_code(causes: Seq<ExecStatusCause>) -> Option<i32>
    decreases causes.len(),
{
    if causes.len() == 0 {
        None
    } else if cause_exit_code(causes[0]) is Some {
        cause_exit_code(causes[0])
    } else {
        first_exit_code(causes.drop_first())
    }
}

/// The exit code that a status tells, if it tells one.
pub open spec fn exit_code_of(status: ExecStatus) -> Option<i32> {
    match status.details {
        Some(details) => match details.causes {
            Some(causes) => first_exit_code(causes@),
            None => None,
        },
        None => None,
    }
}

fn exit_code_from_cause(cause: &ExecStatusCause) -> (code: Option<i32>)
    ensures
        code == cause_exit_code(*cause),
{
    if text_opt_is(&cause.reason, "ExitCode") {
        match &cause.message {
            Some(message) => parse_i32(message.as_str()),
            None => None,
        }
    } else {
        None
    }
}

/// The exit code that a status tells, if it tells one.
pub fn exit_code_from_status(status: &ExecStatus) -> (code: Option<i32>)
    ensures
        code == exit_code_of(*status),
{
    let causes: &Vec<ExecStatusCause> = match &status.details {
        Some(details) => match &details.causes {
            Some(causes) => causes,
            None => {
                return None;
            },
        },
        None => {
            return None;
        },
    };
    let mut i: usize = 0;
    assert(causes@.skip(0) =~= causes@);
    while i < causes.len()
        invariant
            i <= causes@.len(),
            exit_code_of(*status) == first_exit_code(causes@),
            first_exit_code(causes@) == first_exit_code(causes@.skip(i as int)),
        decreases causes@.len() - i,
    {
        assert(causes@.skip(i as int).drop_first() =~= causes@.skip(i + 1));
        match exit_code_from_cause(&causes[i]) {
            Some(code) => {
                return Some(code);
            },
            None => {},
        }
        i = i + 1;
    }
    None
}

/// Whether a cause tells no exit code: it is for another reason, or what it says is no
/// whole number or none that an exit code can be.
pub open spec fn tells_no_exit_code(cause: ExecStatusCause) -> bool {
    ||| text_opt(cause.reason) != Some("ExitCode"@)
    ||| cause.message is None
    ||| integer_of(cause.message->0@) is None
    ||| !(-0x8000_0000 <= integer_of(cause.message->0@)->0 <= 0x7fff_ffff)
}

proof fn lemma_first_exit_code(causes: Seq<ExecStatusCause>, at: int)
    requires
        0 <= at <= causes.len(),
        forall|i: int| 0 <= i < at ==> tells_no_exit_code(#[trigger] causes[i]),
        at < causes.len() ==> !tells_no_exit_code(causes[at]),
    ensures
        at == causes.len() ==> first_exit_code(causes) is None,
        at < causes.len() ==> (first_exit_code(causes) matches Some(code) && code == integer_of(
            causes[at].message->0@,
        )->0),
    decreases at,
{
    if at > 0 {
        let rest = causes.drop_first();
        assert(tells_no_exit_code(causes[0]));
        assert forall|i: int| 0 <= i < at - 1 implies tells_no_exit_code(#[trigger] rest[i]) by {
            assert(rest[i] == causes[i + 1]);
        }
        lemma_first_exit_code(rest, at - 1);
    }
}

/// The exit code of a status is the number that the first of its causes tells that tells
/// one, whatever stands before and behind it.
pub proof fn the_first_told_exit_code_counts(
    status: ExecStatus,
    details: ExecStatusDetails,
    causes: Vec<ExecStatusCause>,
    at: int,
)
    requires
        status.details == Some(details),
        details.causes == Some(causes),
        0 <= at < causes@.len(),
        !tells_no_exit_code(causes@[at]),
        forall|i: int| 0 <= i < at ==> tells_no_exit_code(#[trigger] causes@[i]),
    ensures
        exit_code_of(status) matches Some(code) && code == integer_of(
            causes@[at].message->0@,
        )->0,
{
    lemma_first_exit_code(causes@, at);
}

/// A status of which no cause tells an exit code has none.
pub proof fn no_exit_code_is_made_up(status: ExecStatus)
    requires
        status.details matches Some(details) ==> (details.causes matches Some(causes) ==> forall|
            i: int,
        |
            0 <= i < causes@.len() ==> tells_no_exit_code(#[trigger] causes@[i])),
    ensures
        exit_code_of(status) is None,
{
    if let Some(details) = status.details {
        if let Some(causes) = details.causes {
            lemma_first_exit_code(causes@, causes@.len() as int);
        }
    }
}

} // verus!
