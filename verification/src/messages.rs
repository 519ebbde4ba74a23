//! Control-plane messages.
//!
//! Commands arrive on the inbound channel and reconfigure the proxy at
//! run time; acknowledgements go out on the reply channel, exactly one
//! per successfully applied command.

use vstd::prelude::*;

verus! {

/// Request to open a front-end listener for an application.
pub struct TcpFront {
    pub app_id: String,
    pub port: u16,
}

/// A back-end instance of an application, given as a host and a port.
pub struct Instance {
    pub app_id: String,
    pub ip_address: String,
    pub port: u16,
}

/// Configuration commands understood by the routing table.
pub enum Command {
    AddTcpFront(TcpFront),
    RemoveTcpFront(TcpFront),
    AddInstance(Instance),
    RemoveInstance(Instance),
}

/// What the inbound control channel carries: a command, or the order to
/// shut the reactor down.
pub enum TcpProxyOrder {
    Command(Command),
    Stop,
}

/// Acknowledgements sent on the reply channel.
#[derive(Clone, Copy, Debug, PartialEq, Eq, Structural)]
pub enum ServerMessage {
    AddedFront,
    RemovedFront,
    AddedInstance,
    RemovedInstance,
    Stopped,
}

/// What a session handler asks the reactor to do with the session.
#[derive(Clone, Copy, Debug, PartialEq, Eq, Structural)]
pub enum ClientResult {
    Continue,
    CloseClient,
}

} // verus!
