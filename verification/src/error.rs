//! The error type shared by the network engine and the interface.
use vstd::prelude::*;

verus! {

/// The smallest terminal width the interface is drawn for.
pub const MIN_WIDTH: u16 = 80;

/// The smallest terminal height the interface is drawn for.
pub const MIN_HEIGHT: u16 = 20;

/// Everything that can go wrong in the network engine or the interface.
///
/// The two variants that carry an operating-system error hold its message.
#[derive(Debug, Clone, PartialEq, Eq)]
pub enum WireError {
    Io(String),
    InvalidName,
    HandshakeFailed(String),
    TcpConnectionFailed(String),
    Disconnected,
    PortNotAvailable,
    ClientRegistrationTimeout,
    SerializationFailed,
    PayloadTooLarge,
    ChannelNotFound,
    SenderNotFound,
    ReceiverNotFound,
    ClientNotFound,
    ChannelFailure,
    InvalidArgs,
}

/// The text shown for an error.
pub open spec fn describe_spec(e: WireError) -> Seq<char> {
    match e {
        WireError::Io(s) => "io error: "@ + s@,
        WireError::InvalidName => "invalid name"@,
        WireError::HandshakeFailed(s) => "handshake failed: "@ + s@,
        WireError::TcpConnectionFailed(s) => "TCP connection failed: "@ + s@,
        WireError::Disconnected => "disconnected"@,
        WireError::PortNotAvailable => "port not available"@,
        WireError::ClientRegistrationTimeout => "client registration timeout"@,
        WireError::SerializationFailed => "serialization failed"@,
        WireError::PayloadTooLarge => "payload too large"@,
        WireError::ChannelNotFound => "channel not found"@,
        WireError::SenderNotFound => "sender not found"@,
        WireError::ReceiverNotFound => "receiver not found"@,
        WireError::ClientNotFound => "client not found"@,
        WireError::ChannelFailure => "channel failure"@,
        WireError::InvalidArgs => "invalid args"@,
    }
}

impl WireError {
    /// A variant-by-variant copy.
    pub fn duplicate(&self) -> (r: Self)
        ensures
            r == *self,
    {
        match self {
            WireError::Io(s) => WireError::Io(s.clone()),
            WireError::InvalidName => WireError::InvalidName,
            WireError::HandshakeFailed(s) => WireError::HandshakeFailed(s.clone()),
            WireError::TcpConnectionFailed(s) => WireError::TcpConnectionFailed(s.clone()),
            WireError::Disconnected => WireError::Disconnected,
            WireError::PortNotAvailable => WireError::PortNotAvailable,
            WireError::ClientRegistrationTimeout => WireError::ClientRegistrationTimeout,
            WireError::SerializationFailed => WireError::SerializationFailed,
            WireError::PayloadTooLarge => WireError::PayloadTooLarge,
            WireError::ChannelNotFound => WireError::ChannelNotFound,
            WireError::SenderNotFound => WireError::SenderNotFound,
            WireError::ReceiverNotFound => WireError::ReceiverNotFound,
            WireError::ClientNotFound => WireError::ClientNotFound,
            WireError::ChannelFailure => WireError::ChannelFailure,
            WireError::InvalidArgs => WireError::InvalidArgs,
        }
    }

    /// The text shown for this error, as the interface prints it.
    pub fn describe(&self) -> (r: String)
        ensures
            r@ == describe_spec(*self),
    {
        match self {
            WireError::Io(s) => String::from_str("io error: ").concat(s.as_str()),
            WireError::InvalidName => String::from_str("invalid name"),
            WireError::HandshakeFailed(s) => String::from_str("handshake failed: ").concat(s.as_str()),
            WireError::TcpConnectionFailed(s) => String::from_str("TCP connection failed: ").concat(
                s.as_str(),
            ),
            WireError::Disconnected => String::from_str("disconnected"),
            WireError::PortNotAvailable => String::from_str("port not available"),
            WireError::ClientRegistrationTimeout => String::from_str("client registration timeout"),
            WireError::SerializationFailed => String::from_str("serialization failed"),
            WireError::PayloadTooLarge => String::from_str("payload too large"),
            WireError::ChannelNotFound => String::from_str("channel not found"),
            WireError::SenderNotFound => String::from_str("sender not found"),
            WireError::ReceiverNotFound => String::from_str("receiver not found"),
            WireError::ClientNotFound => String::from_str("client not found"),
            WireError::ChannelFailure => String::from_str("channel failure"),
            WireError::InvalidArgs => String::from_str("invalid args"),
        }
    }
}

} // verus!
