//! The ways an exchange with a device can fail.

use vstd::prelude::*;

verus! {

/// Errors that can occur when interacting with a Yeelight Bulb
#[derive(Clone, Copy, PartialEq, Eq, Structural, Debug)]
pub enum DeviceError {
    /// The stream could not be established.
    ConnectFailed,
    /// A write or a read failed after the connection was made.
    IoFailure,
    /// A frame was neither a response nor a notification.
    ProtocolError,
    /// No matching response arrived before the deadline.
    Timeout,
    /// The peer closed the stream, or the listener failed.
    ConnectionClosed,
}

impl DeviceError {
    /// Whether the error ends the connection. A protocol error costs one
    /// frame and a timeout one call; the others are final.
    pub open spec fn is_fatal(self) -> bool {
        self is ConnectFailed || self is IoFailure || self is ConnectionClosed
    }

    /// Whether the error ends the connection.
    pub fn fatal(&self) -> (fatal: bool)
        ensures
            fatal == self.is_fatal(),
    {
        match self {
            DeviceError::ConnectFailed => true,
            DeviceError::IoFailure => true,
            DeviceError::ProtocolError => false,
            DeviceError::Timeout => false,
            DeviceError::ConnectionClosed => true,
        }
    }

    /// A short description of the error.
    pub fn describe(&self) -> (text: &'static str)
        ensures
            text@ == self.description(),
    {
        match self {
            DeviceError::ConnectFailed => "the connection could not be established",
            DeviceError::IoFailure => "reading from or writing to the connection failed",
            DeviceError::ProtocolError => "a frame was neither a response nor a notification",
            DeviceError::Timeout => "no response arrived before the deadline",
            DeviceError::ConnectionClosed => "the connection is closed",
        }
    }

    /// A short description of the error.
    pub open spec fn description(self) -> Seq<char> {
        match self {
            DeviceError::ConnectFailed => "the connection could not be established"@,
            DeviceError::IoFailure => "reading from or writing to the connection failed"@,
            DeviceError::ProtocolError => "a frame was neither a response nor a notification"@,
            DeviceError::Timeout => "no response arrived before the deadline"@,
            DeviceError::ConnectionClosed => "the connection is closed"@,
        }
    }
}

} // verus!
