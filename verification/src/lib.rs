//! Command dispatch and wire encoding for a single outbound MIDI connection.
//!
//! The crate holds the decisions of a MIDI controller and none of its I/O:
//!
//! * [`message`] turns a logical message into the bytes that go on the wire;
//! * [`command`] is the set of requests that producers may enqueue;
//! * [`clock`] holds the tempo and computes the spacing of clock pulses;
//! * [`connection`] tracks the one output port that may be open;
//! * [`machine`] is the worker as a state machine: it is told what happened
//!   and answers with the one thing to do next;
//! * [`laws`] states and proves what holds of every run of that machine;
//! * [`dispatcher`] keeps the machine in one of its states;
//! * [`midi_map`] is the catalog of controller names;
//! * [`console`] reads the lines of an interactive session;
//! * [`text`] compares strings character by character.
pub mod clock;
pub mod command;
pub mod connection;
pub mod console;
pub mod dispatcher;
pub mod error;
pub mod laws;
pub mod machine;
pub mod message;
pub mod midi_map;
pub mod text;

pub use clock::{TempoState, Train};
pub use command::MidiCommand;
pub use connection::ConnectionState;
pub use dispatcher::{Dispatcher, Step};
pub use error::Fault;
pub use machine::{Action, After, ClockMode, Event, Machine, Notice, Phase, Reaction};
pub use message::Message;
pub use midi_map::{MidiMap, MidiParameter};
