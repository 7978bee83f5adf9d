//! What can go wrong, and how it is reported.
use vstd::prelude::*;

verus! {

/// The kinds of I/O failure that the client tells apart.
#[derive(Copy, Clone, Debug, PartialEq, Eq, Structural)]
pub enum ErrorKind {
    /// The operation would have had to wait.
    WouldBlock,
    /// The operation took longer than it was allowed to.
    TimedOut,
    /// A signal interrupted the operation.
    Interrupted,
    /// The peer closed the connection.
    UnexpectedEof,
    /// A write took none of the bytes it was given.
    WriteZero,
    /// Any other failure.
    Other,
}

/// An I/O failure, reported by the operating system or raised by the client.
#[derive(Debug)]
pub struct IoError {
    /// The kind of failure.
    pub kind: ErrorKind,
    /// The operating system's error number, where it reported the failure.
    pub code: Option<i32>,
    /// What happened, in words.
    pub message: String,
}

/// The errors of the client.
#[derive(Debug)]
pub enum Error {
    /// The name cannot be the name of a socket.
    InvalidName,
    /// The name cannot be the name of a mach port.
    InvalidPortName,
    /// An operation on the socket failed.
    Io(IoError),
    /// One side of the connection did not keep to the protocol.
    ProtocolError(&'static str),
}

/// The model of an [`IoError`].
#[verifier::ext_equal]
pub struct IoErrorView {
    pub kind: ErrorKind,
    pub code: Option<i32>,
    pub message: Seq<char>,
}

/// The model of an [`Error`].
#[verifier::ext_equal]
pub enum ErrorView {
    InvalidName,
    InvalidPortName,
    Io(IoErrorView),
    Protocol(Seq<char>),
}

impl View for IoError {
    type V = IoErrorView;

    open spec fn view(&self) -> IoErrorView {
        IoErrorView { kind: self.kind, code: self.code, message: self.message@ }
    }
}

impl View for Error {
    type V = ErrorView;

    open spec fn view(&self) -> ErrorView {
        match self {
            Error::InvalidName => ErrorView::InvalidName,
            Error::InvalidPortName => ErrorView::InvalidPortName,
            Error::Io(err) => ErrorView::Io(err@),
            Error::ProtocolError(message) => ErrorView::Protocol(message@),
        }
    }
}

/// A result whose error is taken by its model.
pub open spec fn result_view<T>(result: Result<T, Error>) -> Result<T, ErrorView> {
    match result {
        Ok(value) => Ok(value),
        Err(err) => Err(err@),
    }
}

/// An I/O failure that the client itself raises.
pub open spec fn raised(kind: ErrorKind, message: Seq<char>) -> ErrorView {
    ErrorView::Io(IoErrorView { kind, code: None, message })
}

/// Raises an I/O failure.
pub(crate) fn raise(kind: ErrorKind, message: &str) -> (err: Error)
    ensures
        err@ == raised(kind, message@),
{
    Error::Io(IoError { kind, code: None, message: message.to_owned() })
}

/// The failure of a wait whose deadline has passed.
pub open spec fn timed_out() -> ErrorView {
    raised(ErrorKind::TimedOut, "timed out waiting for an IPC response"@)
}

/// Raises the failure of a wait whose deadline has passed.
pub fn timeout_error() -> (err: Error)
    ensures
        err@ == timed_out(),
{
    raise(ErrorKind::TimedOut, "timed out waiting for an IPC response")
}

/// What the model of a failure tells of it: all that there is to it.
pub proof fn law_model_of_failures(err: IoError, message: &'static str)
    ensures
        err@.kind == err.kind,
        err@.code == err.code,
        err@.message == err.message@,
        Error::Io(err)@ == ErrorView::Io(err@),
        Error::ProtocolError(message)@ == ErrorView::Protocol(message@),
        Error::InvalidName@ == ErrorView::InvalidName,
        Error::InvalidPortName@ == ErrorView::InvalidPortName,
{
}

/// A result is its model but for its failure, which is taken by its own.
pub proof fn law_model_of_results<T>(result: Result<T, Error>)
    ensures
        result matches Ok(value) ==> result_view(result) == Ok::<T, ErrorView>(value),
        result matches Err(err) ==> result_view(result) == Err::<T, ErrorView>(err@),
{
}

} // verus!
