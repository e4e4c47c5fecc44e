//! Network-related functionality.
use vstd::prelude::*;

pub mod channel_laws;
pub mod errors;
pub mod laws;
pub mod local_ports;
pub mod network;
pub mod ring;
pub mod service_laws;
pub mod socket_channel;
pub mod sockets;

verus! {

/// Maximum size of rx/tx buffers for sockets.
pub const SOCKET_BUFFER_SIZE: usize = 65536 * 4;

/// An IPv4 address and a port. The first octet of the address is in its highest bits.
#[derive(Clone, Copy, Debug, PartialEq, Eq, Hash, Structural)]
pub struct SocketAddrV4 {
    pub ip: u32,
    pub port: u16,
}

/// An IPv6 address and a port. The first octet of the address is in its highest bits.
#[derive(Clone, Copy, Debug, PartialEq, Eq, Hash, Structural)]
pub struct SocketAddrV6 {
    pub ip: u128,
    pub port: u16,
}

/// An internet socket address.
#[derive(Clone, Copy, Debug, PartialEq, Eq, Hash, Structural)]
pub enum SocketAddr {
    V4(SocketAddrV4),
    V6(SocketAddrV6),
}

impl SocketAddr {
    /// The port.
    pub open spec fn port_spec(self) -> u16 {
        match self {
            SocketAddr::V4(a) => a.port,
            SocketAddr::V6(a) => a.port,
        }
    }

    /// Whether the address is the one that stands for no particular host.
    pub open spec fn is_unspecified_spec(self) -> bool {
        match self {
            SocketAddr::V4(a) => a.ip == 0,
            SocketAddr::V6(a) => a.ip == 0,
        }
    }

    /// The port.
    pub fn port(self) -> (r: u16)
        ensures
            r == self.port_spec(),
    {
        match self {
            SocketAddr::V4(a) => a.port,
            SocketAddr::V6(a) => a.port,
        }
    }

    /// Whether the address is the one that stands for no particular host.
    pub fn is_unspecified(self) -> (r: bool)
        ensures
            r == self.is_unspecified_spec(),
    {
        match self {
            SocketAddr::V4(a) => a.ip == 0,
            SocketAddr::V6(a) => a.ip == 0,
        }
    }
}

/// Flags for the `receive` function.
#[derive(Clone, Copy, Debug, PartialEq, Eq, Structural)]
pub struct ReceiveFlags {
    pub bits: u32,
}

impl ReceiveFlags {
    /// `MSG_CMSG_CLOEXEC`: close-on-exec for the associated file descriptor
    pub const CMSG_CLOEXEC: u32 = 0x40000000;
    /// `MSG_DONTWAIT`: non-blocking operation
    pub const DONTWAIT: u32 = 0x40;
    /// `MSG_ERRQUEUE`: destination for error messages
    pub const ERRQUEUE: u32 = 0x2000;
    /// `MSG_OOB`: requests receipt of out-of-band data
    pub const OOB: u32 = 0x1;
    /// `MSG_PEEK`: requests to peek at incoming messages
    pub const PEEK: u32 = 0x2;
    /// `MSG_TRUNC`: truncate the message
    pub const TRUNC: u32 = 0x20;
    /// `MSG_WAITALL`: wait for the full amount of data
    pub const WAITALL: u32 = 0x100;
    /// Discard the received data
    pub const DISCARD: u32 = 0x8000;

    /// Whether every flag of `other` is set.
    pub open spec fn has(self, other: u32) -> bool {
        self.bits & other == other
    }

    /// No flag.
    pub fn empty() -> (r: ReceiveFlags)
        ensures
            r == (ReceiveFlags { bits: 0 }),
    {
        ReceiveFlags { bits: 0 }
    }

    /// Whether every flag of `other` is set.
    pub fn contains(self, other: u32) -> (r: bool)
        ensures
            r == self.has(other),
    {
        self.bits & other == other
    }
}

/// Flags for the `send` function.
#[derive(Clone, Copy, Debug, PartialEq, Eq, Structural)]
pub struct SendFlags {
    pub bits: u32,
}

impl SendFlags {
    /// `MSG_CONFIRM`: requests confirmation of the message delivery.
    pub const CONFIRM: u32 = 0x800;
    /// `MSG_DONTROUTE`: send the message directly to the interface, bypassing routing.
    pub const DONTROUTE: u32 = 0x4;
    /// `MSG_DONTWAIT`: non-blocking operation, do not wait for buffer space to become available.
    pub const DONTWAIT: u32 = 0x40;
    /// `MSG_EOR`: indicates the end of a record for message-oriented sockets.
    pub const EOR: u32 = 0x80;
    /// `MSG_MORE`: indicates that more data will follow.
    pub const MORE: u32 = 0x8000;
    /// `MSG_NOSIGNAL`: prevents the sending of SIGPIPE signals when writing to a socket that is closed.
    pub const NOSIGNAL: u32 = 0x4000;
    /// `MSG_OOB`: sends out-of-band data.
    pub const OOB: u32 = 0x1;

    /// No flag.
    pub fn empty() -> (r: SendFlags)
        ensures
            r == (SendFlags { bits: 0 }),
    {
        SendFlags { bits: 0 }
    }
}

/// Protocols for sockets supported by LiteBox.
#[non_exhaustive]
#[derive(Clone, Copy, Debug, PartialEq, Eq, Structural)]
pub enum Protocol {
    Tcp,
    Udp,
    Icmp,
    Raw { protocol: u8 },
}

/// Socket options for TCP.
#[non_exhaustive]
#[derive(Clone, Copy, Debug, PartialEq, Eq, Structural)]
pub enum TcpOptionName {
    /// If set, disable the Nagle algorithm. This means that
    /// segments are always sent as soon as possible, even if there
    /// is only a small amount of data.
    NODELAY,
    /// Enable sending of keep-alive messages.
    KEEPALIVE,
    /// TCP congestion control algorithm
    CONGESTION,
}

/// Data for TCP options.
///
/// Note it should be paired with the correct [`TcpOptionName`] variant.
/// For example, `TcpOptionName::NODELAY` should be paired with `TcpOptionData::NODELAY(true)`.
#[non_exhaustive]
#[derive(Clone, Copy, Debug, PartialEq, Eq, Structural)]
pub enum TcpOptionData {
    NODELAY(bool),
    /// The interval in microseconds, if keep-alive messages are sent.
    KEEPALIVE(Option<u64>),
    CONGESTION(CongestionControl),
}

/// TCP Congestion Control Algorithms.
#[non_exhaustive]
#[derive(Clone, Copy, Debug, PartialEq, Eq, Structural)]
pub enum CongestionControl {
    /// No congestion control.
    NoControl,
    Reno,
    Cubic,
}

#[derive(Debug, Clone, Copy, PartialEq, Eq, Structural)]
pub enum CloseBehavior {
    /// Close the socket immediately (i.e., abortive close).
    Immediate,
    /// Close the socket in background and return immediately
    Graceful,
    /// Close the socket in background only if there is not unsent data remaining,
    /// else return an error.
    GracefulIfNoPendingData,
}

/// Whether interaction with the platform needs to be manually invoked or not.
#[derive(Debug, Clone, Copy, PartialEq, Eq, Structural)]
pub enum PlatformInteraction {
    /// Automatically (internally) invoked whenever any calls like `send`/`recv`/... are made.
    Automatic,
    /// Requires manually (periodically) invoking the interaction
    Manual,
}

/// Advice on when to interact with the platform again.
///
/// It is perfectly ok to ignore this advice by calling things sooner (say, in a tight loop).
/// Specifically, it is harmless (but wastes energy) to call for interaction again sooner than
/// advised. In contrast, it _may_ be harmful (impacting quality of service) to call it later than
/// requested.
#[derive(Clone, Copy, Debug, PartialEq, Eq, Structural)]
pub enum PlatformInteractionReinvocationAdvice {
    /// It is likely helpful to call again immediately, without any delay.
    CallAgainImmediately,
    /// You don't need to call again until more packets arrive on the device's receive side (i.e.,
    /// `timeout` is `None`), or the given `timeout`, in microseconds, expires.
    WaitOnDeviceOrSocketInteraction { timeout: Option<u64> },
}

impl PlatformInteractionReinvocationAdvice {
    /// Convenience function to match against [`Self::CallAgainImmediately`].
    #[must_use]
    pub fn call_again_immediately(self) -> (r: bool)
        ensures
            r == (self is CallAgainImmediately),
    {
        match self {
            PlatformInteractionReinvocationAdvice::CallAgainImmediately => true,
            _ => false,
        }
    }
}

} // verus!
