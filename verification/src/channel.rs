use vstd::prelude::*;

use async_channel::{Sender, TrySendError};

verus! {

/// The sending half of an `async_channel` channel.
#[verifier::external_type_specification]
#[verifier::external_body]
#[verifier::reject_recursive_types(T)]
pub struct ExSender<T>(Sender<T>);

/// The error of `async_channel::Sender::try_send`.
#[verifier::external_type_specification]
#[verifier::external_body]
#[verifier::reject_recursive_types(T)]
pub struct ExTrySendError<T>(TrySendError<T>);

/// Why a message could not be put into a channel.
#[derive(Debug, Clone, Copy, PartialEq, Eq, Structural)]
pub enum SendFailure {
    /// The channel is full but not closed.
    Full,
    /// The channel is closed.
    Closed,
}

/// Tells the variants of `TrySendError` apart. Nothing is stated: Verus sees
/// no variant of the outside enum.
#[verifier::external_body]
pub(crate) fn send_failure_kind<T>(e: TrySendError<T>) -> SendFailure {
    match e {
        TrySendError::Full(_) => SendFailure::Full,
        TrySendError::Closed(_) => SendFailure::Closed,
    }
}

/// Calls `Sender::try_send`, telling the two errors apart (the message
/// that came back with the error is dropped). Whether the message goes in
/// depends on the state of the channel (its capacity, its receivers), which
/// another task changes, so nothing is stated of the result.
#[verifier::external_body]
pub(crate) fn channel_try_send<T>(sender: &Sender<T>, msg: T) -> Result<(), SendFailure> {
    match sender.try_send(msg) {
        Ok(()) => Ok(()),
        Err(TrySendError::Full(_)) => Err(SendFailure::Full),
        Err(TrySendError::Closed(_)) => Err(SendFailure::Closed),
    }
}

} // verus!
