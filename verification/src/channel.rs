use vstd::prelude::*;

use crate::command::Command;
use tokio::sync::mpsc::UnboundedSender;

verus! {

/// The send half of tokio's unbounded channel, declared so that values of it
/// can move through verified code. The channel is FIFO with a single
/// consumer: the receiver sees messages in the order this sender accepted
/// them, and an unbounded `send` never blocks or drops an accepted message.
#[verifier::external_type_specification]
#[verifier::external_body]
#[verifier::reject_recursive_types(T)]
pub struct ExUnboundedSender<T>(UnboundedSender<T>);

/// The receiving end of the channel is gone: nothing further can be
/// dispatched, which is fatal to the UI loop's send path.
#[derive(Debug, PartialEq, Eq)]
pub struct ChannelClosed;

/// Relies on tokio::sync::mpsc::UnboundedSender::send: it never blocks, and
/// it fails exactly when the receive half has been dropped or closed, in
/// which case it hands the rejected message back unchanged.
#[verifier::external_body]
pub(crate) fn send_command(tx: &UnboundedSender<Command>, cmd: Command) -> (r: Result<
    (),
    Command,
>)
    ensures
        r matches Err(c) ==> c == cmd,
{
    match tx.send(cmd) {
        Ok(()) => Ok(()),
        Err(tokio::sync::mpsc::error::SendError(c)) => Err(c),
    }
}

} // verus!
