//! What can go wrong while a command is applied. None of these ends the
//! session: each spoils one command and is reported.
use vstd::prelude::*;

verus! {

/// The reason why a command had no effect, or less than it asked for.
#[derive(Clone, Copy, Debug, PartialEq, Eq, Structural)]
pub enum Fault {
    /// A connection was asked for on a port index that the host does not have.
    NoSuchPort,
    /// The device or the host's MIDI subsystem refused to open or to write.
    DeviceError,
    /// A message was to be sent while no port was open. The message is
    /// dropped; this is the ordinary state of affairs while offline.
    NotConnected,
    /// A field of the command lies outside its range.
    InvalidParameter,
}

impl Fault {
    /// Whether the fault is the soft one, which is reported as a warning.
    pub open spec fn soft(self) -> bool {
        self == Fault::NotConnected
    }

    /// Whether the fault is to be reported as a warning and not as an error.
    pub fn is_soft(&self) -> (soft: bool)
        ensures
            soft == self.soft(),
    {
        match *self {
            Fault::NotConnected => true,
            _ => false,
        }
    }
}

} // verus!
