//! The one-shot channel over which the output of a task goes to its handle, and
//! the evidence of what went over it.

use crate::Poll;
use futures::channel::oneshot;
use std::future::Future;
use std::pin::Pin;
use vstd::prelude::*;

verus! {

/// The sending half of a one-shot channel of the futures crate. Nothing is known
/// here of what it holds.
#[verifier::external_type_specification]
#[verifier::external_body]
#[verifier::reject_recursive_types(T)]
pub struct ExSender<T>(oneshot::Sender<T>);

/// The receiving half of a one-shot channel of the futures crate. Nothing is
/// known here of what it holds.
#[verifier::external_type_specification]
#[verifier::external_body]
#[verifier::reject_recursive_types(T)]
pub struct ExReceiver<T>(oneshot::Receiver<T>);

/// The error of a one-shot channel of the futures crate whose sending half was
/// dropped.
#[verifier::external_type_specification]
#[verifier::external_body]
pub struct ExCanceled(oneshot::Canceled);

/// What a future is polled with. Nothing is known here of what it holds.
#[verifier::external_type_specification]
#[verifier::external_body]
pub struct ExContext<'a>(std::task::Context<'a>);

/// Where a task sends its output. Sending uses it up, so one output at most goes
/// over its channel.
#[verifier::reject_recursive_types(R)]
pub struct OutputSender<R> {
    sender: oneshot::Sender<R>,
    given: Ghost<Set<R>>,
}

impl<R> OutputSender<R> {
    /// `output` is given to this sender.
    pub closed spec fn carries(&self, output: R) -> bool {
        self.given@.contains(output)
    }
}

/// A handle to the output of a spawned task.
#[verifier::reject_recursive_types(R)]
pub struct JoinHandle<R> {
    receiver: oneshot::Receiver<R>,
    sender: Ghost<OutputSender<R>>,
    done: Ghost<bool>,
}

impl<R> JoinHandle<R> {
    /// The other half of the channel: where the task sends its output.
    pub closed spec fn sender(&self) -> OutputSender<R> {
        self.sender@
    }

    /// A poll of the channel was answered before with something else than that it
    /// is pending.
    pub closed spec fn is_done(&self) -> bool {
        self.done@
    }
}

/// An output that was sent.
#[verifier::reject_recursive_types(R)]
pub struct Delivered<R> {
    sent: Ghost<(OutputSender<R>, R)>,
}

impl<R> View for Delivered<R> {
    type V = (OutputSender<R>, R);

    closed spec fn view(&self) -> (OutputSender<R>, R) {
        self.sent@
    }
}

/// An output that could not be sent.
#[verifier::reject_recursive_types(R)]
pub struct Refused<R> {
    output: R,
    sender: Ghost<OutputSender<R>>,
}

impl<R> View for Refused<R> {
    type V = (OutputSender<R>, R);

    closed spec fn view(&self) -> (OutputSender<R>, R) {
        (self.sender@, self.output)
    }
}

impl<R> Refused<R> {
    /// The output.
    pub fn into_output(self) -> (output: R)
        ensures
            output == self@.1,
    {
        self.output
    }
}

/// What a poll of the channel of a handle gave.
#[verifier::reject_recursive_types(R)]
pub struct Received<R> {
    polled: Poll<Result<R, oneshot::Canceled>>,
    sender: Ghost<OutputSender<R>>,
}

impl<R> Received<R> {
    /// The sending half of the channel that was polled.
    pub closed spec fn sender(&self) -> OutputSender<R> {
        self.sender@
    }

    /// The answer.
    pub closed spec fn polled(&self) -> Poll<Result<R, oneshot::Canceled>> {
        self.polled
    }

    /// The answer.
    pub fn into_polled(self) -> (polled: Poll<Result<R, oneshot::Canceled>>)
        ensures
            polled == self.polled(),
    {
        self.polled
    }
}

/// `delivery` is that of sending `output` on `sender`: either it was sent, or it
/// was tried and came back.
pub open spec fn is_delivery<R>(
    sender: OutputSender<R>,
    output: R,
    delivery: Result<Delivered<R>, Refused<R>>,
) -> bool {
    match delivery {
        Ok(delivered) => delivered@ == (sender, output) && sender.carries(output),
        Err(refused) => refused@ == (sender, output),
    }
}

/// `received` is what a poll of the channel of `handle` can give. An output that
/// comes was given to the sender of that channel. Where it is known what was
/// delivered there, the first answer is that output.
pub open spec fn is_received<R>(
    handle: JoinHandle<R>,
    delivered: Option<&Delivered<R>>,
    received: Received<R>,
) -> bool {
    &&& received.sender() == handle.sender()
    &&& received.polled() matches Poll::Ready(Ok(output)) ==> handle.sender().carries(output)
    &&& delivered matches Some(delivered) ==> {
        &&& received.polled() matches Poll::Ready(Ok(output)) ==> output == delivered@.1
        &&& !handle.is_done() ==> received.polled() matches Poll::Ready(Ok(_))
    }
}

/// Calls `futures::channel::oneshot::channel`: the two halves of a new channel,
/// which belong together, and of which nothing was received yet.
#[verifier::external_body]
pub(crate) fn oneshot_channel<R>() -> (halves: (OutputSender<R>, JoinHandle<R>))
    ensures
        halves.1.sender() == halves.0,
        !halves.1.is_done(),
{
    let (sender, receiver) = oneshot::channel();
    (
        OutputSender { sender, given: Ghost(arbitrary()) },
        JoinHandle { receiver, sender: Ghost(arbitrary()), done: Ghost(false) },
    )
}

/// Calls `oneshot::Sender::send`, which uses the sender up. Either way there is
/// evidence of the call; where it fails, it gives back the output that it was
/// handed. Whether it fails depends on the receiver, which other threads may drop
/// at any time, and is not stated.
#[verifier::external_body]
pub(crate) fn oneshot_send<R>(sender: OutputSender<R>, output: R) -> (delivery: Result<
    Delivered<R>,
    Refused<R>,
>)
    ensures
        is_delivery(sender, output, delivery),
{
    match sender.sender.send(output) {
        Ok(()) => Ok(Delivered { sent: Ghost(arbitrary()) }),
        Err(output) => Err(Refused { output, sender: Ghost(arbitrary()) }),
    }
}

/// Polls the receiver of a one-shot channel, which resolves to the value that was
/// given to the sender of the same channel. Who holds evidence that an output was
/// delivered there, and has not had an answer yet, gets that output. Without such
/// evidence, whether there is one yet depends on other threads and is not stated;
/// nor is that the waker of `context` is woken once there is.
#[verifier::external_body]
pub(crate) fn oneshot_poll<R>(
    handle: &mut JoinHandle<R>,
    delivered: Option<&Delivered<R>>,
    context: &mut std::task::Context<'_>,
) -> (received: Received<R>)
    requires
        delivered matches Some(delivered) ==> delivered@.0 == old(handle).sender(),
    ensures
        final(handle).sender() == old(handle).sender(),
        final(handle).is_done() == (old(handle).is_done() || !(received.polled() is Pending)),
        is_received(*old(handle), delivered, received),
{
    let polled = match Pin::new(&mut handle.receiver).poll(context) {
        std::task::Poll::Ready(received) => Poll::Ready(received),
        std::task::Poll::Pending => Poll::Pending,
    };
    Received { polled, sender: Ghost(arbitrary()) }
}

} // verus!
