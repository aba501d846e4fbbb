//! The ways a pipeline operation can fail.

use vstd::prelude::*;

verus! {

/// Why an operation of the pipeline failed.
#[derive(Clone, Copy, Debug, PartialEq, Eq, Structural)]
pub enum ErrorKind {
    /// The adapter cannot turn the frame's layout into the requested one.
    /// Only that frame is lost.
    UnsupportedPixelFormat,
    /// The backend failed for a reason other than backpressure. The session
    /// is over.
    BackendFatalError,
    /// The session is not writing: it was never opened or is already closed.
    SessionClosed,
    /// The producer went away without sending the end-of-stream marker.
    ChannelClosedUnexpectedly,
}

impl ErrorKind {
    /// Whether the error ends the recording. Only a frame that cannot be
    /// adapted leaves the recording running.
    pub open spec fn is_fatal(self) -> bool {
        self != ErrorKind::UnsupportedPixelFormat
    }

    /// Decides `is_fatal`.
    pub fn fatal(&self) -> (r: bool)
        ensures
            r == self.is_fatal(),
    {
        !matches!(self, ErrorKind::UnsupportedPixelFormat)
    }

    /// The text shown to the user for this error.
    pub open spec fn text(self) -> Seq<char> {
        match self {
            ErrorKind::UnsupportedPixelFormat => "unsupported pixel format"@,
            ErrorKind::BackendFatalError => "encoder backend failed"@,
            ErrorKind::SessionClosed => "encoder session is closed"@,
            ErrorKind::ChannelClosedUnexpectedly => "frame channel closed without end of stream"@,
        }
    }

    /// A short description for the user.
    pub fn message(&self) -> (s: &'static str)
        ensures
            s@ == self.text(),
    {
        match self {
            ErrorKind::UnsupportedPixelFormat => "unsupported pixel format",
            ErrorKind::BackendFatalError => "encoder backend failed",
            ErrorKind::SessionClosed => "encoder session is closed",
            ErrorKind::ChannelClosedUnexpectedly => "frame channel closed without end of stream",
        }
    }
}

} // verus!
