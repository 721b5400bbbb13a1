//! The requests that producers enqueue for the dispatcher.
use crate::error::Fault;
use crate::message::{channel_in_range, is_channel, Message};
use vstd::prelude::*;

verus! {

/// One request. A command is a value: it is made by a producer, queued, and
/// applied once.
#[derive(Clone, Copy, Debug, PartialEq, Eq, Structural)]
pub enum MidiCommand {
    /// Sets the channel and, where a port index is given, opens that port.
    Connect(Option<usize>, u8),
    /// Releases the open port, if any.
    Disconnect,
    ControlChange { channel: u8, controller: u8, value: u8 },
    ProgramChange { channel: u8, program: u8 },
    NoteOn { channel: u8, note: u8, velocity: u8 },
    NoteOff { channel: u8, note: u8 },
    Start,
    Stop,
    Continue,
    /// Sets the tempo, in thousandths of a beat per minute.
    SetTempo(u32),
    /// Releases the open port and ends the session.
    Quit,
}

impl MidiCommand {
    /// The message that the command asks to be written, where it asks for
    /// one.
    pub open spec fn message(self) -> Option<Message> {
        match self {
            MidiCommand::ControlChange { channel, controller, value } => Some(
                Message::ControlChange { channel, controller, value },
            ),
            MidiCommand::ProgramChange { channel, program } => Some(
                Message::ProgramChange { channel, program },
            ),
            MidiCommand::NoteOn { channel, note, velocity } => Some(
                Message::NoteOn { channel, note, velocity },
            ),
            MidiCommand::NoteOff { channel, note } => Some(Message::NoteOff { channel, note }),
            MidiCommand::Start => Some(Message::Start),
            MidiCommand::Stop => Some(Message::Stop),
            MidiCommand::Continue => Some(Message::Continue),
            _ => None,
        }
    }

    /// The command carries data for a channel: a Control Change, a Program
    /// Change or a note.
    pub open spec fn carries_data(self) -> bool {
        self is ControlChange || self is ProgramChange || self is NoteOn || self is NoteOff
    }

    /// Every field of the command is in its range.
    pub open spec fn valid(self) -> bool {
        match self {
            MidiCommand::Connect(_, channel) => is_channel(channel),
            MidiCommand::SetTempo(tempo) => tempo > 0,
            _ => self.message() matches Some(message) ==> message.well_formed(),
        }
    }

    /// The message to write for this command, if it asks for one.
    pub fn to_message(&self) -> (message: Option<Message>)
        ensures
            message == self.message(),
    {
        match *self {
            MidiCommand::ControlChange { channel, controller, value } => Some(
                Message::ControlChange { channel, controller, value },
            ),
            MidiCommand::ProgramChange { channel, program } => Some(
                Message::ProgramChange { channel, program },
            ),
            MidiCommand::NoteOn { channel, note, velocity } => Some(
                Message::NoteOn { channel, note, velocity },
            ),
            MidiCommand::NoteOff { channel, note } => Some(Message::NoteOff { channel, note }),
            MidiCommand::Start => Some(Message::Start),
            MidiCommand::Stop => Some(Message::Stop),
            MidiCommand::Continue => Some(Message::Continue),
            _ => None,
        }
    }

    /// Whether the command carries data for a channel.
    pub fn is_data(&self) -> (data: bool)
        ensures
            data == self.carries_data(),
    {
        match *self {
            MidiCommand::ControlChange { .. } => true,
            MidiCommand::ProgramChange { .. } => true,
            MidiCommand::NoteOn { .. } => true,
            MidiCommand::NoteOff { .. } => true,
            _ => false,
        }
    }

    /// Checks the fields of the command against their ranges.
    pub fn check(&self) -> (result: Result<(), Fault>)
        ensures
            self.valid() <==> result is Ok,
            result matches Err(fault) ==> fault == Fault::InvalidParameter,
    {
        let ok: bool = match *self {
            MidiCommand::Connect(_, channel) => channel_in_range(channel),
            MidiCommand::SetTempo(tempo) => tempo > 0,
            _ => match self.to_message() {
                Some(message) => message.is_well_formed(),
                None => true,
            },
        };
        if ok {
            Ok(())
        } else {
            Err(Fault::InvalidParameter)
        }
    }
}

} // verus!
