use vstd::prelude::*;

verus! {

/// The kind of an I/O failure, as far as the reconnect policy needs to tell
/// kinds apart. Kinds the policy never singles out fold into `Other`.
#[derive(Clone, Copy, Debug, PartialEq, Eq)]
pub enum ErrorKind {
    NotFound,
    PermissionDenied,
    ConnectionRefused,
    ConnectionReset,
    ConnectionAborted,
    NotConnected,
    AddrInUse,
    AddrNotAvailable,
    BrokenPipe,
    AlreadyExists,
    WouldBlock,
    InvalidInput,
    InvalidData,
    TimedOut,
    WriteZero,
    Interrupted,
    Unsupported,
    UnexpectedEof,
    OutOfMemory,
    Other,
}

/// The kinds that mean the connection itself is no longer usable, so that a
/// fresh connection may help. `WouldBlock` is not among them: it points at
/// the timeout configuration, not at a dead socket.
pub open spec fn disconnect_class(kind: ErrorKind) -> bool {
    match kind {
        ErrorKind::NotFound => true,
        ErrorKind::PermissionDenied => true,
        ErrorKind::ConnectionRefused => true,
        ErrorKind::ConnectionReset => true,
        ErrorKind::ConnectionAborted => true,
        ErrorKind::NotConnected => true,
        ErrorKind::AddrInUse => true,
        ErrorKind::AddrNotAvailable => true,
        ErrorKind::BrokenPipe => true,
        ErrorKind::AlreadyExists => true,
        _ => false,
    }
}

/// Whether a failure of this kind calls for a reconnect.
pub fn is_disconnect_error(err: &ErrorKind) -> (r: bool)
    ensures
        r == disconnect_class(*err),
{
    match err {
        ErrorKind::NotFound | ErrorKind::PermissionDenied | ErrorKind::ConnectionRefused
        | ErrorKind::ConnectionReset | ErrorKind::ConnectionAborted | ErrorKind::NotConnected
        | ErrorKind::AddrInUse | ErrorKind::AddrNotAvailable | ErrorKind::BrokenPipe
        | ErrorKind::AlreadyExists => true,
        _ => false,
    }
}

} // verus!
