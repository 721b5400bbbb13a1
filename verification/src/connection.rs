//! The one output port that may be open at a time.
//!
//! The handle itself belongs to whoever performs the I/O. What is kept here is
//! what the dispatcher needs to know of it: whether one is held, on which
//! port, and for which channel it was opened.
use crate::error::Fault;
use crate::message::is_channel;
use vstd::prelude::*;

verus! {

/// Whether a port is open, and which.
#[derive(Clone, Copy, Debug, PartialEq, Eq, Structural)]
pub enum ConnectionState {
    Disconnected,
    Connected { port_index: usize, channel: u8 },
}

impl ConnectionState {
    /// A connection is only ever made for one of the sixteen channels.
    pub open spec fn wf(self) -> bool {
        self matches ConnectionState::Connected { channel, .. } ==> is_channel(channel)
    }

    /// The index of the open port.
    pub open spec fn port(self) -> Option<usize> {
        match self {
            ConnectionState::Connected { port_index, .. } => Some(port_index),
            ConnectionState::Disconnected => None,
        }
    }

    /// Whether a port is open.
    pub fn is_connected(&self) -> (open: bool)
        ensures
            open == (*self is Connected),
    {
        match *self {
            ConnectionState::Connected { .. } => true,
            ConnectionState::Disconnected => false,
        }
    }

    /// The index of the open port, if one is open.
    pub fn port_index(&self) -> (port: Option<usize>)
        ensures
            port == self.port(),
    {
        match *self {
            ConnectionState::Connected { port_index, .. } => Some(port_index),
            ConnectionState::Disconnected => None,
        }
    }
}

/// Whether the host, which offers `port_count` ports, has a port `port_index`.
pub open spec fn port_exists(port_index: usize, port_count: usize) -> bool {
    port_index < port_count
}

/// Checks a port index against the number of ports that the host offers.
pub fn select_port(port_index: usize, port_count: usize) -> (result: Result<usize, Fault>)
    ensures
        port_exists(port_index, port_count) <==> result is Ok,
        result matches Ok(index) ==> index == port_index,
        result matches Err(fault) ==> fault == Fault::NoSuchPort,
{
    if port_index < port_count {
        Ok(port_index)
    } else {
        Err(Fault::NoSuchPort)
    }
}

} // verus!
