//! The input of an exec session on its way to the container: a queue of commands, and
//! a budget of bytes that may wait in it.

use crate::error::AppError;
use std::sync::Arc;
use tokio::sync::{mpsc, oneshot, OwnedSemaphorePermit, Semaphore};
use vstd::prelude::*;

verus! {

/// The greatest piece of input that is taken at once.
pub const INPUT_CHUNK_BYTES: usize = 16 * 1024;

/// How much input may wait.
pub const PENDING_INPUT_BYTES: usize = 256 * 1024;

/// How many commands may wait: as many as there are whole pieces of input in what may
/// wait.
pub const COMMAND_CAPACITY: usize = PENDING_INPUT_BYTES / INPUT_CHUNK_BYTES;

/// `tokio::sync::mpsc::Sender`, the sending end of a bounded channel;
/// the declaration claims nothing.
#[verifier::external_type_specification]
#[verifier::external_body]
#[verifier::reject_recursive_types(T)]
pub struct ExMpscSender<T>(tokio::sync::mpsc::Sender<T>);

/// `tokio::sync::mpsc::Receiver`, the receiving end of a bounded channel;
/// the declaration claims nothing.
#[verifier::external_type_specification]
#[verifier::external_body]
#[verifier::reject_recursive_types(T)]
pub struct ExMpscReceiver<T>(tokio::sync::mpsc::Receiver<T>);

/// `tokio::sync::oneshot::Sender`, the sending end of a channel for one value;
/// the declaration claims nothing.
#[verifier::external_type_specification]
#[verifier::external_body]
#[verifier::reject_recursive_types(T)]
pub struct ExOneshotSender<T>(tokio::sync::oneshot::Sender<T>);

/// `tokio::sync::oneshot::Receiver`, the receiving end of a channel for one value;
/// the declaration claims nothing.
#[verifier::external_type_specification]
#[verifier::external_body]
#[verifier::reject_recursive_types(T)]
pub struct ExOneshotReceiver<T>(tokio::sync::oneshot::Receiver<T>);

/// `tokio::sync::oneshot::error::RecvError`, which the receiving end names in its `Future`;
/// the declaration claims nothing.
#[verifier::external_type_specification]
#[verifier::external_body]
pub struct ExRecvError(tokio::sync::oneshot::error::RecvError);

/// `tokio::sync::Semaphore`; the declaration claims nothing.
#[verifier::external_type_specification]
#[verifier::external_body]
pub struct ExSemaphore(tokio::sync::Semaphore);

/// `tokio::sync::OwnedSemaphorePermit`, permits that go back to their semaphore when they
/// are dropped; the declaration claims nothing.
#[verifier::external_type_specification]
#[verifier::external_body]
pub struct ExOwnedSemaphorePermit(tokio::sync::OwnedSemaphorePermit);

/// The size of a terminal.
#[derive(Debug, Clone, Copy, PartialEq, Eq, Structural)]
pub struct PodExecTerminalSize {
    pub cols: u16,
    pub rows: u16,
}

/// How many permits a semaphore was made with.
pub uninterp spec fn permits_of(semaphore: Semaphore) -> nat;

/// How many permits are held, as `OwnedSemaphorePermit::num_permits` tells.
pub uninterp spec fn permits_in(permit: OwnedSemaphorePermit) -> nat;

/// The semaphore that permits go back to, as `OwnedSemaphorePermit::semaphore` tells.
pub uninterp spec fn semaphore_of(permit: OwnedSemaphorePermit) -> Arc<Semaphore>;

/// The bytes that may wait for one session: the permits of a semaphore, which is never
/// closed. Nothing but [`InputBudget::take`] touches it.
pub struct InputBudget {
    semaphore: Arc<Semaphore>,
}

/// Bytes taken from a budget, which go back to it when this is dropped.
pub struct InputPermit {
    permit: OwnedSemaphorePermit,
}

/// `tokio::sync::OwnedSemaphorePermit::num_permits` tells how many permits are held; the
/// claim is only that it always tells the same of the same permits.
#[verifier::external_body]
fn num_permits(permit: &OwnedSemaphorePermit) -> (permits: usize)
    ensures
        permits == permits_in(*permit),
{
    permit.num_permits()
}

impl InputPermit {
    /// How many bytes were taken.
    pub closed spec fn taken(self) -> nat {
        permits_in(self.permit)
    }

    /// The budget that the bytes were taken from.
    pub closed spec fn budget(self) -> InputBudget {
        InputBudget { semaphore: semaphore_of(self.permit) }
    }

    /// How many bytes were taken.
    pub fn bytes(&self) -> (bytes: usize)
        ensures
            bytes == self.taken(),
    {
        num_permits(&self.permit)
    }
}

/// `tokio::sync::Semaphore::new` makes a semaphore; the claim is that it has as many
/// permits as were asked for. It panics above a limit that is at least the one asked for
/// here.
#[verifier::external_body]
fn semaphore(permits: usize) -> (made: Semaphore)
    requires
        permits <= 0x1fff_ffff,
    ensures
        permits_of(made) == permits,
{
    Semaphore::new(permits)
}

impl InputBudget {
    /// The bytes that the budget was made with: the permits of its semaphore.
    pub closed spec fn limit(self) -> nat {
        permits_of(*self.semaphore)
    }

    /// A budget of `limit` bytes.
    pub fn new(limit: usize) -> (budget: InputBudget)
        requires
            limit <= 0x1fff_ffff,
        ensures
            budget.limit() == limit,
    {
        InputBudget { semaphore: Arc::new(semaphore(limit)) }
    }

    /// `tokio::sync::Semaphore::try_acquire_many_owned` takes so many permits at once,
    /// or none. The claim is that what was taken is what was asked for, comes from this
    /// semaphore and is no more than it was made with, and that asking for nothing is
    /// never refused, as the semaphore of a budget is never closed. Which other requests
    /// are refused depends on what is taken at that time. The call panics above the
    /// number that is allowed here.
    #[verifier::external_body]
    fn try_acquire(&self, permits: u32) -> (acquired: Option<OwnedSemaphorePermit>)
        requires
            permits <= 0x1fff_ffff,
        ensures
            acquired matches Some(permit) ==> permits_in(permit) == permits && semaphore_of(permit)
                == self.semaphore && permits <= permits_of(*self.semaphore),
            permits == 0 ==> acquired is Some,
    {
        self.semaphore.clone().try_acquire_many_owned(permits).ok()
    }

    /// Takes so many bytes from the budget, or none. Nothing can always be taken; whether
    /// there is room for more depends on what is taken at that time.
    pub(crate) fn take(&self, bytes: u32) -> (taken: Option<InputPermit>)
        requires
            bytes <= 0x1fff_ffff,
        ensures
            taken matches Some(permit) ==> permit.taken() == bytes && permit.budget() == *self
                && bytes <= self.limit(),
            bytes == 0 ==> taken is Some,
    {
        match self.try_acquire(bytes) {
            Some(permit) => Some(InputPermit { permit }),
            None => None,
        }
    }
}

/// A command to the task that runs an exec session.
pub enum ExecCommand {
    /// Input for the container, and where to say how writing it went.
    Stdin {
        data: Vec<u8>,
        acknowledged: oneshot::Sender<Result<(), AppError>>,
        permit: InputPermit,
    },
    /// A new size of the terminal.
    Resize(PodExecTerminalSize),
}

/// Why a command was not taken, with the command.
pub enum QueueRefusal {
    Full(ExecCommand),
    Closed(ExecCommand),
}

/// Which queue of commands a sender puts them into.
pub uninterp spec fn queue_of(commands: mpsc::Sender<ExecCommand>) -> int;

/// Which queue of commands a receiver takes them out of.
pub uninterp spec fn queue_read_by(commands: mpsc::Receiver<ExecCommand>) -> int;

/// How many commands the queue of a sender holds, as `Sender::max_capacity` tells.
pub uninterp spec fn capacity_of(commands: mpsc::Sender<ExecCommand>) -> nat;

/// Which channel a sender of an answer hands it to.
pub uninterp spec fn answer_channel(to: oneshot::Sender<Result<(), AppError>>) -> int;

/// Which channel a receiver gets an answer from.
pub uninterp spec fn answered_channel(from: oneshot::Receiver<Result<(), AppError>>) -> int;

/// A receipt for a command that was put into a queue. Only [`try_send`] makes one.
pub struct Queued {
    queue: Ghost<int>,
    command: Ghost<ExecCommand>,
}

impl Queued {
    /// The queue that holds the command.
    pub closed spec fn queue(self) -> int {
        self.queue@
    }

    /// The command.
    pub closed spec fn command(self) -> ExecCommand {
        self.command@
    }
}

/// A receipt for an answer that was handed over. Only [`send_answer`] makes one.
pub struct Delivered {
    channel: Ghost<int>,
    answer: Ghost<Result<(), AppError>>,
}

impl Delivered {
    /// The channel that holds the answer.
    pub closed spec fn channel(self) -> int {
        self.channel@
    }

    /// The answer.
    pub closed spec fn answer(self) -> Result<(), AppError> {
        self.answer@
    }
}

/// `tokio::sync::mpsc::Sender::try_send` puts a value into a channel, unless that is full
/// or closed. The claim is that a value that is taken stands in the channel of this
/// sender, for which the receipt speaks, and that one that is refused comes back as it
/// is. Which of the three happens depends on the receiver at that time.
#[verifier::external_body]
pub(crate) fn try_send(commands: &mpsc::Sender<ExecCommand>, command: ExecCommand) -> (outcome:
    Result<Queued, QueueRefusal>)
    ensures
        outcome matches Ok(queued) ==> queued.queue() == queue_of(*commands) && queued.command()
            == command,
        outcome matches Err(QueueRefusal::Full(refused)) ==> refused == command,
        outcome matches Err(QueueRefusal::Closed(refused)) ==> refused == command,
{
    match commands.try_send(command) {
        Ok(()) => Ok(Queued { queue: Ghost(arbitrary()), command: Ghost(arbitrary()) }),
        Err(mpsc::error::TrySendError::Full(refused)) => Err(QueueRefusal::Full(refused)),
        Err(mpsc::error::TrySendError::Closed(refused)) => Err(QueueRefusal::Closed(refused)),
    }
}

/// `tokio::sync::mpsc::channel` makes a channel; the claim is that it holds as many values
/// as were asked for, and that what goes into the sending end comes out of the receiving
/// end. It panics where the number is zero or above a limit that is at least the one
/// asked for here.
#[verifier::external_body]
pub(crate) fn command_channel(capacity: usize) -> (ends: (
    mpsc::Sender<ExecCommand>,
    mpsc::Receiver<ExecCommand>,
))
    requires
        0 < capacity <= 0x1fff_ffff,
    ensures
        queue_of(ends.0) == queue_read_by(ends.1),
        capacity_of(ends.0) == capacity,
{
    mpsc::channel(capacity)
}

/// `tokio::sync::oneshot::channel` makes a channel for one value; the claim is that what
/// goes into the sending end comes out of the receiving end.
#[verifier::external_body]
pub(crate) fn acknowledgement() -> (ends: (
    oneshot::Sender<Result<(), AppError>>,
    oneshot::Receiver<Result<(), AppError>>,
))
    ensures
        answer_channel(ends.0) == answered_channel(ends.1),
{
    oneshot::channel()
}

/// `tokio::sync::oneshot::Sender::send` hands a value to the receiver, unless that is
/// gone. The claim is that a value that is taken stands in the channel of this sender,
/// for which the receipt speaks, and that one that is not taken comes back as it is.
/// Whether the receiver is there depends on its task.
#[verifier::external_body]
pub(crate) fn send_answer(
    to: oneshot::Sender<Result<(), AppError>>,
    result: Result<(), AppError>,
) -> (sent: Result<Delivered, Result<(), AppError>>)
    ensures
        sent matches Ok(delivered) ==> delivered.channel() == answer_channel(to)
            && delivered.answer() == result,
        sent matches Err(back) ==> back == result,
{
    match to.send(result) {
        Ok(()) => Ok(Delivered { channel: Ghost(arbitrary()), answer: Ghost(arbitrary()) }),
        Err(back) => Err(back),
    }
}

/// What may wait is 256 KiB in pieces of at most 16 KiB, and the queue holds as many
/// commands as there are such pieces.
pub proof fn input_limits_fit_together()
    ensures
        INPUT_CHUNK_BYTES == 16_384,
        PENDING_INPUT_BYTES == 262_144,
        COMMAND_CAPACITY * INPUT_CHUNK_BYTES == PENDING_INPUT_BYTES,
{
    assert(COMMAND_CAPACITY == 16);
}

} // verus!
