//! The dispatcher as a state machine.
//!
//! The worker that owns the output port does two kinds of thing in turn: it
//! decides, and it waits for something outside to happen. The deciding is all
//! here. A [`Machine`] is told an [`Event`], moves to its next state, and then
//! awaits exactly one [`Action`]; whoever performs that action reports what
//! came of it as the next event. A command is only taken from the queue when
//! the machine asks for one, so a command is applied whole before the next
//! one is looked at.
use crate::clock::{TempoState, Train, DEFAULT_TEMPO};
use crate::command::MidiCommand;
use crate::connection::{port_exists, ConnectionState};
use crate::error::Fault;
use crate::message::{is_channel, Message};
use vstd::prelude::*;

verus! {

/// What follows the Start byte on the wire.
#[derive(Clone, Copy, Debug, PartialEq, Eq, Structural)]
pub enum ClockMode {
    /// The fixed burst of six pulses, whatever the tempo.
    FixedBurst,
    /// A run of `pulses` pulses, spaced as the tempo asks.
    Timed { pulses: u32 },
}

/// What the machine goes on to once the port has been released.
#[derive(Clone, Copy, Debug, PartialEq, Eq, Structural)]
pub enum After {
    /// Nothing: the port was released for its own sake.
    Rest,
    /// A connection to the port with this index.
    Connect(usize),
    /// The end of the session.
    Halt,
}

/// Where the machine is in applying a command.
#[derive(Clone, Copy, Debug, PartialEq, Eq, Structural)]
pub enum Phase {
    /// No command is being applied.
    Idle,
    /// The open port is being released.
    Releasing(After),
    /// The host's ports are being counted, to open the one with this index.
    Probing(usize),
    /// The port with this index is being opened.
    Opening(usize),
    /// A message is being written and nothing follows it.
    Sending(Message),
    /// The Start byte is being written; clock pulses follow it.
    Starting,
    /// A clock pulse is being written; the run counts it as still to do.
    Pulsing(Train),
    /// The rest after a pulse is being taken; the run is what follows it.
    Resting(Train),
    /// The session has ended.
    Halted,
}

/// What happened outside the machine.
#[derive(Clone, Copy, Debug, PartialEq, Eq, Structural)]
pub enum Event {
    /// A command came off the queue.
    Command(MidiCommand),
    /// The queue has no producers left and is empty.
    Closed,
    /// The host offers this many output ports.
    Ports(usize),
    /// The action was performed.
    Done,
    /// The action could not be performed.
    Failed,
}

/// The one thing to do next.
#[derive(Clone, Copy, Debug, PartialEq, Eq, Structural)]
pub enum Action {
    /// Take the next command off the queue.
    Receive,
    /// Release the open port.
    Release,
    /// Count the host's output ports.
    CountPorts,
    /// Open the port with this index.
    Open(usize),
    /// Write this message to the open port.
    Send(Message),
    /// Do nothing for this many microseconds.
    Sleep(u64),
    /// Stop: the session has ended.
    Halt,
}

/// What there is to report of a step.
#[derive(Clone, Copy, Debug, PartialEq, Eq, Structural)]
pub enum Notice {
    /// A port was opened.
    Connected { port_index: usize, channel: u8 },
    /// No port is open any more.
    Disconnected,
    /// The tempo is now this many thousandths of a beat per minute.
    TempoSet(u32),
    /// The command, or a part of it, came to nothing.
    Fault(Fault),
}

/// A state together with what there is to report of the step that led to it.
#[derive(Clone, Copy, Debug, PartialEq, Eq, Structural)]
pub struct Reaction {
    pub state: Machine,
    pub notice: Option<Notice>,
}

/// The state that the dispatcher threads from one step to the next.
#[derive(Clone, Copy, Debug, PartialEq, Eq, Structural)]
pub struct Machine {
    /// Whether a port is open, and which.
    pub connection: ConnectionState,
    /// The channel that the next connection will be made for.
    pub channel: u8,
    /// The tempo.
    pub tempo: TempoState,
    /// What follows a Start byte.
    pub clock: ClockMode,
    /// Where the machine is in applying a command.
    pub phase: Phase,
}

impl Machine {
    /// The state before anything has happened: no port is open, the tempo is
    /// 120 beats per minute, and a command is awaited.
    pub open spec fn initial(channel: u8, clock: ClockMode) -> Machine {
        Machine {
            connection: ConnectionState::Disconnected,
            channel,
            tempo: TempoState { tempo: DEFAULT_TEMPO },
            clock,
            phase: Phase::Idle,
        }
    }

    /// Whether a port is open.
    pub open spec fn connected(self) -> bool {
        self.connection is Connected
    }

    /// The states that the machine can be in. A port is open while it is
    /// released or written to, and none is while one is sought or the session
    /// has ended; a port is sought for one of the sixteen channels; what is
    /// written is well formed.
    pub open spec fn wf(self) -> bool {
        &&& self.connection.wf()
        &&& self.tempo.wf()
        &&& match self.phase {
            Phase::Idle => true,
            Phase::Releasing(after) => self.connected() && (after is Connect ==> is_channel(
                self.channel,
            )),
            Phase::Probing(_) => !self.connected() && is_channel(self.channel),
            Phase::Opening(_) => !self.connected() && is_channel(self.channel),
            Phase::Sending(message) => self.connected() && message.well_formed(),
            Phase::Starting => self.connected(),
            Phase::Pulsing(train) => self.connected() && train.left > 0,
            Phase::Resting(_) => self.connected(),
            Phase::Halted => !self.connected(),
        }
    }

    /// The action that the machine is waiting for.
    pub open spec fn pending(self) -> Action {
        match self.phase {
            Phase::Idle => Action::Receive,
            Phase::Releasing(_) => Action::Release,
            Phase::Probing(_) => Action::CountPorts,
            Phase::Opening(port_index) => Action::Open(port_index),
            Phase::Sending(message) => Action::Send(message),
            Phase::Starting => Action::Send(Message::Start),
            Phase::Pulsing(_) => Action::Send(Message::Clock),
            Phase::Resting(train) => Action::Sleep(train.rest),
            Phase::Halted => Action::Halt,
        }
    }

    /// Whether `event` is an answer to the action that the machine is waiting
    /// for. Any other event leaves the machine as it is.
    pub open spec fn awaits(self, event: Event) -> bool {
        match self.phase {
            Phase::Idle => event is Command || event is Closed,
            Phase::Probing(_) => event is Ports || event is Failed,
            Phase::Halted => false,
            _ => event is Done || event is Failed,
        }
    }

    /// The same state in another phase.
    pub open spec fn at(self, phase: Phase) -> Machine {
        Machine { phase, ..self }
    }

    /// The step that changes nothing and reports nothing.
    pub open spec fn stay(self) -> Reaction {
        Reaction { state: self, notice: None }
    }

    /// The step into `phase`, with nothing to report.
    pub open spec fn go(self, phase: Phase) -> Reaction {
        Reaction { state: self.at(phase), notice: None }
    }

    /// The step that ends the command in hand because of `fault`.
    pub open spec fn give_up(self, fault: Fault) -> Reaction {
        Reaction { state: self.at(Phase::Idle), notice: Some(Notice::Fault(fault)) }
    }

    /// The run of pulses that follows a Start byte.
    pub open spec fn train(self) -> Train {
        match self.clock {
            ClockMode::FixedBurst => Train::burst(),
            ClockMode::Timed { pulses } => Train::timed(self.tempo.tempo, pulses),
        }
    }

    /// The phase in which `train` is carried on: its next pulse, or rest if
    /// none is left.
    pub open spec fn carry_on(train: Train) -> Phase {
        if train.left == 0 {
            Phase::Idle
        } else {
            Phase::Pulsing(train)
        }
    }

    /// What an idle machine makes of a command.
    ///
    /// A command with a field out of range is refused whole. A connection to a
    /// port begins by releasing the port that is open. A message is written if
    /// a port is open and dropped if none is; only for a message that carries
    /// data is the drop reported. Tempo and channel are simply kept.
    pub open spec fn accept(self, command: MidiCommand) -> Reaction {
        if !command.valid() {
            Reaction { state: self, notice: Some(Notice::Fault(Fault::InvalidParameter)) }
        } else {
            match command {
                MidiCommand::Connect(None, channel) => Reaction {
                    state: Machine { channel, ..self },
                    notice: None,
                },
                MidiCommand::Connect(Some(port_index), channel) => Reaction {
                    state: Machine {
                        channel,
                        phase: if self.connected() {
                            Phase::Releasing(After::Connect(port_index))
                        } else {
                            Phase::Probing(port_index)
                        },
                        ..self
                    },
                    notice: None,
                },
                MidiCommand::Disconnect => if self.connected() {
                    self.go(Phase::Releasing(After::Rest))
                } else {
                    Reaction { state: self, notice: Some(Notice::Disconnected) }
                },
                MidiCommand::SetTempo(tempo) => Reaction {
                    state: Machine { tempo: TempoState { tempo }, ..self },
                    notice: Some(Notice::TempoSet(tempo)),
                },
                MidiCommand::Quit => if self.connected() {
                    self.go(Phase::Releasing(After::Halt))
                } else {
                    self.go(Phase::Halted)
                },
                _ => {
                    let message = command.message().unwrap();
                    if self.connected() {
                        if message is Start {
                            self.go(Phase::Starting)
                        } else {
                            self.go(Phase::Sending(message))
                        }
                    } else if command.carries_data() {
                        Reaction { state: self, notice: Some(Notice::Fault(Fault::NotConnected)) }
                    } else {
                        self.stay()
                    }
                },
            }
        }
    }

    /// What the machine makes of the port having been released.
    pub open spec fn released(self, after: After) -> Reaction {
        let state = Machine { connection: ConnectionState::Disconnected, ..self };
        match after {
            After::Rest => Reaction {
                state: state.at(Phase::Idle),
                notice: Some(Notice::Disconnected),
            },
            After::Connect(port_index) => state.go(Phase::Probing(port_index)),
            After::Halt => state.go(Phase::Halted),
        }
    }

    /// What the machine makes of the port having been opened.
    pub open spec fn opened(self, port_index: usize) -> Reaction {
        Reaction {
            state: Machine {
                connection: ConnectionState::Connected { port_index, channel: self.channel },
                phase: Phase::Idle,
                ..self
            },
            notice: Some(Notice::Connected { port_index, channel: self.channel }),
        }
    }

    /// The step that the machine takes on `event`.
    ///
    /// Releasing a port cannot fail, nor can a rest: there either answer
    /// counts. A write that fails is reported and dropped, and the port stays
    /// open. A failed Start byte is followed by no pulses. A failed pulse ends
    /// a strict run and is passed over in the fixed burst.
    pub open spec fn react(self, event: Event) -> Reaction {
        if !self.awaits(event) {
            self.stay()
        } else {
            match self.phase {
                Phase::Idle => match event {
                    Event::Command(command) => self.accept(command),
                    _ => self.accept(MidiCommand::Quit),
                },
                Phase::Releasing(after) => self.released(after),
                Phase::Probing(port_index) => match event {
                    Event::Ports(port_count) => if port_exists(port_index, port_count) {
                        self.go(Phase::Opening(port_index))
                    } else {
                        self.give_up(Fault::NoSuchPort)
                    },
                    _ => self.give_up(Fault::DeviceError),
                },
                Phase::Opening(port_index) => match event {
                    Event::Done => self.opened(port_index),
                    _ => self.give_up(Fault::DeviceError),
                },
                Phase::Sending(_) => match event {
                    Event::Done => self.go(Phase::Idle),
                    _ => self.give_up(Fault::DeviceError),
                },
                Phase::Starting => match event {
                    Event::Done => self.go(Machine::carry_on(self.train())),
                    _ => self.give_up(Fault::DeviceError),
                },
                Phase::Pulsing(train) => match event {
                    Event::Done => self.go(Phase::Resting(train.advanced())),
                    _ => if train.strict {
                        self.give_up(Fault::DeviceError)
                    } else {
                        Reaction {
                            state: self.at(Phase::Resting(train.advanced())),
                            notice: Some(Notice::Fault(Fault::DeviceError)),
                        }
                    },
                },
                Phase::Resting(train) => self.go(Machine::carry_on(train)),
                Phase::Halted => self.stay(),
            }
        }
    }

    /// The state after `event`.
    pub open spec fn next(self, event: Event) -> Machine {
        self.react(event).state
    }

    /// What is reported of the step on `event`.
    pub open spec fn notice(self, event: Event) -> Option<Notice> {
        self.react(event).notice
    }

    /// The state after a sequence of events.
    pub open spec fn run(self, events: Seq<Event>) -> Machine
        decreases events.len(),
    {
        if events.len() == 0 {
            self
        } else {
            self.next(events.first()).run(events.drop_first())
        }
    }

    /// Whether each of `events` in its turn answers the action that the
    /// machine was waiting for: such is every run in which actions are
    /// performed as they are asked for.
    pub open spec fn answered_by(self, events: Seq<Event>) -> bool
        decreases events.len(),
    {
        events.len() > 0 ==> self.awaits(events.first()) && self.next(events.first()).answered_by(
            events.drop_first(),
        )
    }

    /// The actions that a sequence of events answers, one for each event.
    pub open spec fn performed(self, events: Seq<Event>) -> Seq<Action>
        decreases events.len(),
    {
        if events.len() == 0 {
            Seq::empty()
        } else {
            seq![self.pending()] + self.next(events.first()).performed(events.drop_first())
        }
    }

    /// The bytes that `event` says were written: those of the message that
    /// the machine was waiting to have sent, if it was sent.
    pub open spec fn wrote(self, event: Event) -> Seq<u8> {
        match self.pending() {
            Action::Send(message) => if event is Done {
                message.wire()
            } else {
                Seq::empty()
            },
            _ => Seq::empty(),
        }
    }

    /// The bytes that were written in the course of a sequence of events, in
    /// the order in which they went out.
    pub open spec fn written(self, events: Seq<Event>) -> Seq<u8>
        decreases events.len(),
    {
        if events.len() == 0 {
            Seq::empty()
        } else {
            self.wrote(events.first()) + self.next(events.first()).written(events.drop_first())
        }
    }
}

} // verus!
