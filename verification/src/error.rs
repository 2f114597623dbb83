use vstd::prelude::*;

use async_channel::{Sender, TrySendError};

use crate::channel::{channel_try_send, send_failure_kind, SendFailure};
use crate::text::push_str;

verus! {

/// The errors of the application.
#[derive(Debug)]
pub enum AppError {
    SenderError { name: String },
    ReceiverError { name: String },
    ChannelFullError { name: String },
    TypeError(String),
    ZbusError(String),
    AudioError(String),
    IoError(String),
    CustomError(String),
    DialoguerError(String),
    ArgError(String),
}

/// The text by which an error is shown to the user.
pub open spec fn app_error_text(e: AppError) -> Seq<char> {
    match e {
        AppError::SenderError { name } => "SenderError: Receiver was dropped: "@ + name@,
        AppError::ReceiverError { name } => "ReceiverError: Sender was dropped: "@ + name@,
        AppError::ChannelFullError { name } => "ChannelFullError: channel is full: "@ + name@,
        AppError::TypeError(m) => "TypeError: "@ + m@,
        AppError::ZbusError(m) => "ZbusError: "@ + m@,
        AppError::AudioError(m) => "AudioError: "@ + m@,
        AppError::IoError(m) => "IoError: "@ + m@,
        AppError::CustomError(m) => "CustomError: "@ + m@,
        AppError::DialoguerError(m) => "DialoguerError: "@ + m@,
        AppError::ArgError(m) => "ArgError: "@ + m@,
    }
}

/// Builds `prefix` followed by `tail`.
pub fn prefixed(prefix: &str, tail: &str) -> (r: String)
    ensures
        r@ == prefix@ + tail@,
{
    let mut s = String::new();
    push_str(&mut s, prefix);
    push_str(&mut s, tail);
    s
}

impl AppError {
    /// The text by which the error is shown to the user.
    pub fn message(&self) -> (r: String)
        ensures
            r@ == app_error_text(*self),
    {
        match self {
            AppError::SenderError { name } => prefixed("SenderError: Receiver was dropped: ", name.as_str()),
            AppError::ReceiverError { name } => prefixed("ReceiverError: Sender was dropped: ", name.as_str()),
            AppError::ChannelFullError { name } => prefixed("ChannelFullError: channel is full: ", name.as_str()),
            AppError::TypeError(m) => prefixed("TypeError: ", m.as_str()),
            AppError::ZbusError(m) => prefixed("ZbusError: ", m.as_str()),
            AppError::AudioError(m) => prefixed("AudioError: ", m.as_str()),
            AppError::IoError(m) => prefixed("IoError: ", m.as_str()),
            AppError::CustomError(m) => prefixed("CustomError: ", m.as_str()),
            AppError::DialoguerError(m) => prefixed("DialoguerError: ", m.as_str()),
            AppError::ArgError(m) => prefixed("ArgError: ", m.as_str()),
        }
    }
}

/// The error for a message that could not be put into the channel named
/// `name`: a closed channel means that its receiver was dropped.
pub open spec fn send_failure_app_error(kind: SendFailure, name: String) -> AppError {
    match kind {
        SendFailure::Closed => AppError::SenderError { name },
        SendFailure::Full => AppError::ChannelFullError { name },
    }
}

/// Whether `e` is the error of a failed send on the channel named `name`.
pub open spec fn is_send_error(e: AppError, name: Seq<char>) -> bool {
    ||| e matches AppError::SenderError { name: n } && n@ == name
    ||| e matches AppError::ChannelFullError { name: n } && n@ == name
}

/// The error for a message that could not be put into the channel named
/// `sender_name`.
pub fn send_failure_error(kind: SendFailure, sender_name: String) -> (r: AppError)
    ensures
        r == send_failure_app_error(kind, sender_name),
{
    match kind {
        SendFailure::Closed => AppError::SenderError { name: sender_name },
        SendFailure::Full => AppError::ChannelFullError { name: sender_name },
    }
}

/// Maps the error of `Sender::try_send` to the error of the application.
pub fn try_send_error_to_app_error<T>(try_send_error: TrySendError<T>, sender_name: String) -> (r: AppError)
    ensures
        r == send_failure_app_error(SendFailure::Closed, sender_name) || r == send_failure_app_error(
            SendFailure::Full,
            sender_name,
        ),
{
    let kind = send_failure_kind(try_send_error);
    send_failure_error(kind, sender_name)
}

/// Whether `r` is what a send on the channel named `name` gives when its
/// outcome was `outcome`: nothing on success, else the error for the kind
/// of failure.
pub open spec fn send_result_agrees(outcome: Result<(), SendFailure>, name: Seq<char>, r: Result<(), AppError>) -> bool {
    match outcome {
        Ok(()) => r is Ok,
        Err(SendFailure::Full) => r matches Err(AppError::ChannelFullError { name: n }) && n@ == name,
        Err(SendFailure::Closed) => r matches Err(AppError::SenderError { name: n }) && n@ == name,
    }
}

/// The result of a send on the channel named `sender_name`, given its
/// outcome (see [`send_result_agrees`]).
pub fn send_result(outcome: Result<(), SendFailure>, sender_name: &str) -> (r: Result<(), AppError>)
    ensures
        send_result_agrees(outcome, sender_name@, r),
{
    match outcome {
        Ok(()) => Ok(()),
        Err(kind) => Err(send_failure_error(kind, sender_name.to_owned())),
    }
}

/// Puts a message into a channel without waiting; a failure becomes the
/// error for the channel named `sender_name`, by the kind of failure (see
/// [`send_result`]).
pub fn send_or_error<T>(sender: &Sender<T>, msg: T, sender_name: &str) -> (r: Result<(), AppError>)
    ensures
        exists|outcome: Result<(), SendFailure>| send_result_agrees(outcome, sender_name@, r),
        r matches Err(e) ==> is_send_error(e, sender_name@),
{
    let outcome = channel_try_send(sender, msg);
    send_result(outcome, sender_name)
}

} // verus!
