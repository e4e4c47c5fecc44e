//! Errors of the network.
use crate::net::local_ports::LocalPortAllocationError;
use crate::net::SocketAddr;
use vstd::prelude::*;

verus! {

/// Possible errors from creating a socket.
#[non_exhaustive]
#[derive(Clone, Copy, Debug, PartialEq, Eq, Structural)]
pub enum SocketError {
    /// The protocol is not supported for raw sockets.
    UnsupportedProtocol(u8),
}

/// Possible errors from closing a socket.
#[non_exhaustive]
#[derive(Clone, Copy, Debug, PartialEq, Eq, Structural)]
pub enum CloseError {
    /// Not a (valid) open file descriptor.
    InvalidFd,
    /// Data is still waiting to be sent.
    DataPending,
}

/// Possible errors from connecting a socket.
#[non_exhaustive]
#[derive(Clone, Copy, Debug, PartialEq, Eq, Structural)]
pub enum ConnectError {
    /// Not a (valid) open file descriptor.
    InvalidFd,
    /// The address is of a kind that is not supported.
    UnsupportedAddress(SocketAddr),
    /// No local port could be had.
    PortAllocationFailure(LocalPortAllocationError),
    /// The address cannot be connected to.
    Unaddressable,
    /// The socket is not connected, and not connecting either.
    InvalidState,
    /// The connection is being established.
    InProgress,
    /// The connection attempt took too long.
    TimedOut,
}

/// Possible errors from binding a socket.
#[non_exhaustive]
#[derive(Clone, Copy, Debug, PartialEq, Eq, Structural)]
pub enum BindError {
    /// Not a (valid) open file descriptor.
    InvalidFd,
    /// The address is of a kind that is not supported.
    UnsupportedAddress(SocketAddr),
    /// The port is in use.
    PortAlreadyInUse(u16),
    /// The socket is bound already.
    AlreadyBound,
}

/// Possible errors from making a socket listen.
#[non_exhaustive]
#[derive(Clone, Copy, Debug, PartialEq, Eq, Structural)]
pub enum ListenError {
    /// Not a (valid) open file descriptor.
    InvalidFd,
    /// The socket is bound to an address that cannot be listened on.
    InvalidAddress,
    /// No ephemeral port is free.
    NoAvailableFreeEphemeralPorts,
}

/// Possible errors from accepting a connection.
#[non_exhaustive]
#[derive(Clone, Copy, Debug, PartialEq, Eq, Structural)]
pub enum AcceptError {
    /// Not a (valid) open file descriptor.
    InvalidFd,
    /// The socket is not listening.
    NotListening,
    /// No connection is waiting to be accepted.
    NoConnectionsReady,
}

/// Possible errors from sending.
#[non_exhaustive]
#[derive(Clone, Copy, Debug, PartialEq, Eq, Structural)]
pub enum SendError {
    /// Not a (valid) open file descriptor.
    InvalidFd,
    /// The socket cannot send in its state.
    SocketInInvalidState,
    /// A destination was given to a connected socket.
    UnnecessaryDestinationAddress,
    /// No destination was given, and the socket has none.
    DestinationAddressRequired,
    /// The destination cannot be sent to.
    Unaddressable,
    /// There is no room for the data.
    BufferFull,
    /// No local port could be had.
    PortAllocationFailure(LocalPortAllocationError),
}

/// Possible errors from receiving.
#[non_exhaustive]
#[derive(Clone, Copy, Debug, PartialEq, Eq, Structural)]
pub enum ReceiveError {
    /// Not a (valid) open file descriptor.
    InvalidFd,
    /// The socket cannot receive in its state.
    SocketInInvalidState,
    /// The other end has finished sending.
    OperationFinished,
}

/// Possible errors from asking for a local address.
#[non_exhaustive]
#[derive(Clone, Copy, Debug, PartialEq, Eq, Structural)]
pub enum LocalAddrError {
    /// Not a (valid) open file descriptor.
    InvalidFd,
}

/// Possible errors from asking for a remote address.
#[non_exhaustive]
#[derive(Clone, Copy, Debug, PartialEq, Eq, Structural)]
pub enum RemoteAddrError {
    /// Not a (valid) open file descriptor.
    InvalidFd,
    /// The socket is not connected.
    NotConnected,
}

/// Possible errors from setting a TCP option.
#[non_exhaustive]
#[derive(Clone, Copy, Debug, PartialEq, Eq, Structural)]
pub enum SetTcpOptionError {
    /// Not a (valid) open file descriptor.
    InvalidFd,
    /// The socket is not a TCP socket.
    NotTcpSocket,
}

/// Possible errors from reading a TCP option.
#[non_exhaustive]
#[derive(Clone, Copy, Debug, PartialEq, Eq, Structural)]
pub enum GetTcpOptionError {
    /// Not a (valid) open file descriptor.
    InvalidFd,
    /// The socket is not a TCP socket.
    NotTcpSocket,
}

/// Errors that a socket learns of by itself, to be asked for later.
#[non_exhaustive]
#[derive(Clone, Copy, Debug, PartialEq, Eq, Structural)]
pub enum SocketAsyncError {
    /// The connection attempt was refused.
    ConnectionRefused,
    /// The connection was reset by the other end.
    ConnectionReset,
    /// The connection attempt took too long.
    TimedOut,
}

} // verus!
