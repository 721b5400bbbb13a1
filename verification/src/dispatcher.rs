//! The dispatcher: the machine, kept in one of its states.
//!
//! The loop around it is short. It asks the dispatcher what to do, does it,
//! and tells the dispatcher what happened:
//!
//! | action       | what to do                         | answer                |
//! |--------------|------------------------------------|-----------------------|
//! | `Receive`    | wait for a command on the queue    | `Command` or `Closed` |
//! | `Release`    | drop the open port                 | `Done`                |
//! | `CountPorts` | ask the host for its output ports  | `Ports` or `Failed`   |
//! | `Open`       | open the port with that index      | `Done` or `Failed`    |
//! | `Send`       | write the message to the open port | `Done` or `Failed`    |
//! | `Sleep`      | sleep that many microseconds       | `Done`                |
//! | `Halt`       | leave the loop                     |                       |
use crate::clock::{TempoState, Train};
use crate::command::MidiCommand;
use crate::connection::{select_port, ConnectionState};
use crate::error::Fault;
use crate::laws::lemma_step_keeps_wf;
use crate::machine::{Action, After, ClockMode, Event, Machine, Notice, Phase, Reaction};
use crate::message::Message;
use vstd::prelude::*;

verus! {

/// What a step asks for and what it reports.
#[derive(Clone, Copy, Debug, PartialEq, Eq, Structural)]
pub struct Step {
    /// The one thing to do next.
    pub action: Action,
    /// What there is to report, if anything.
    pub notice: Option<Notice>,
}

/// The owner of the connection state and of the tempo.
pub struct Dispatcher {
    state: Machine,
}

impl View for Dispatcher {
    type V = Machine;

    closed spec fn view(&self) -> Machine {
        self.state
    }
}

fn stay(state: Machine) -> (reaction: Reaction)
    ensures
        reaction == state.stay(),
{
    Reaction { state, notice: None }
}

fn go(state: Machine, phase: Phase) -> (reaction: Reaction)
    ensures
        reaction == state.go(phase),
{
    Reaction { state: Machine { phase, ..state }, notice: None }
}

fn give_up(state: Machine, fault: Fault) -> (reaction: Reaction)
    ensures
        reaction == state.give_up(fault),
{
    Reaction { state: Machine { phase: Phase::Idle, ..state }, notice: Some(Notice::Fault(fault)) }
}

fn report(state: Machine, notice: Notice) -> (reaction: Reaction)
    ensures
        reaction == (Reaction { state, notice: Some(notice) }),
{
    Reaction { state, notice: Some(notice) }
}

fn carry_on(train: Train) -> (phase: Phase)
    ensures
        phase == Machine::carry_on(train),
{
    if train.left == 0 {
        Phase::Idle
    } else {
        Phase::Pulsing(train)
    }
}

fn train_of(state: &Machine) -> (train: Train)
    requires
        state.wf(),
    ensures
        train == state.train(),
{
    match state.clock {
        ClockMode::FixedBurst => Train::fixed_burst(),
        ClockMode::Timed { pulses } => state.tempo.clock_train(pulses),
    }
}

fn pending_of(state: &Machine) -> (action: Action)
    ensures
        action == state.pending(),
{
    match state.phase {
        Phase::Idle => Action::Receive,
        Phase::Releasing(_) => Action::Release,
        Phase::Probing(_) => Action::CountPorts,
        Phase::Opening(port_index) => Action::Open(port_index),
        Phase::Sending(message) => Action::Send(message),
        Phase::Starting => Action::Send(Message::Start),
        Phase::Pulsing(_) => Action::Send(Message::Clock),
        Phase::Resting(train) => Action::Sleep(train.rest),
        Phase::Halted => Action::Halt,
    }
}

fn accept(state: Machine, command: MidiCommand) -> (reaction: Reaction)
    ensures
        reaction == state.accept(command),
{
    if command.check().is_err() {
        return report(state, Notice::Fault(Fault::InvalidParameter));
    }
    let connected: bool = state.connection.is_connected();
    match command {
        MidiCommand::Connect(None, channel) => stay(Machine { channel, ..state }),
        MidiCommand::Connect(Some(port_index), channel) => {
            let phase: Phase = if connected {
                Phase::Releasing(After::Connect(port_index))
            } else {
                Phase::Probing(port_index)
            };
            stay(Machine { channel, phase, ..state })
        },
        MidiCommand::Disconnect => if connected {
            go(state, Phase::Releasing(After::Rest))
        } else {
            report(state, Notice::Disconnected)
        },
        MidiCommand::SetTempo(tempo) => report(
            Machine { tempo: TempoState { tempo }, ..state },
            Notice::TempoSet(tempo),
        ),
        MidiCommand::Quit => if connected {
            go(state, Phase::Releasing(After::Halt))
        } else {
            go(state, Phase::Halted)
        },
        _ => match command.to_message() {
            Some(Message::Start) => if connected {
                go(state, Phase::Starting)
            } else {
                stay(state)
            },
            Some(message) => if connected {
                go(state, Phase::Sending(message))
            } else if command.is_data() {
                report(state, Notice::Fault(Fault::NotConnected))
            } else {
                stay(state)
            },
            None => stay(state),
        },
    }
}

fn released(state: Machine, after: After) -> (reaction: Reaction)
    ensures
        reaction == state.released(after),
{
    let state = Machine { connection: ConnectionState::Disconnected, ..state };
    match after {
        After::Rest => report(Machine { phase: Phase::Idle, ..state }, Notice::Disconnected),
        After::Connect(port_index) => go(state, Phase::Probing(port_index)),
        After::Halt => go(state, Phase::Halted),
    }
}

fn opened(state: Machine, port_index: usize) -> (reaction: Reaction)
    ensures
        reaction == state.opened(port_index),
{
    let channel: u8 = state.channel;
    report(
        Machine {
            connection: ConnectionState::Connected { port_index, channel },
            phase: Phase::Idle,
            ..state
        },
        Notice::Connected { port_index, channel },
    )
}

fn react(state: Machine, event: Event) -> (reaction: Reaction)
    requires
        state.wf(),
    ensures
        reaction == state.react(event),
{
    match (state.phase, event) {
        (Phase::Idle, Event::Command(command)) => accept(state, command),
        (Phase::Idle, Event::Closed) => accept(state, MidiCommand::Quit),
        (Phase::Releasing(after), Event::Done) => released(state, after),
        (Phase::Releasing(after), Event::Failed) => released(state, after),
        (Phase::Probing(port_index), Event::Ports(port_count)) => match select_port(
            port_index,
            port_count,
        ) {
            Ok(index) => go(state, Phase::Opening(index)),
            Err(fault) => give_up(state, fault),
        },
        (Phase::Probing(_), Event::Failed) => give_up(state, Fault::DeviceError),
        (Phase::Opening(port_index), Event::Done) => opened(state, port_index),
        (Phase::Opening(_), Event::Failed) => give_up(state, Fault::DeviceError),
        (Phase::Sending(_), Event::Done) => go(state, Phase::Idle),
        (Phase::Sending(_), Event::Failed) => give_up(state, Fault::DeviceError),
        (Phase::Starting, Event::Done) => {
            let train = train_of(&state);
            go(state, carry_on(train))
        },
        (Phase::Starting, Event::Failed) => give_up(state, Fault::DeviceError),
        (Phase::Pulsing(train), Event::Done) => go(state, Phase::Resting(train.advance())),
        (Phase::Pulsing(train), Event::Failed) => if train.strict {
            give_up(state, Fault::DeviceError)
        } else {
            report(
                Machine { phase: Phase::Resting(train.advance()), ..state },
                Notice::Fault(Fault::DeviceError),
            )
        },
        (Phase::Resting(train), Event::Done) => go(state, carry_on(train)),
        (Phase::Resting(train), Event::Failed) => go(state, carry_on(train)),
        _ => stay(state),
    }
}

impl Dispatcher {
    #[verifier::type_invariant]
    spec fn inv(self) -> bool {
        self.state.wf()
    }

    /// A dispatcher that follows a Start byte with the fixed burst.
    pub fn new(initial_channel: u8) -> (dispatcher: Dispatcher)
        ensures
            dispatcher@ == Machine::initial(initial_channel, ClockMode::FixedBurst),
            dispatcher@.wf(),
    {
        Dispatcher::with_clock(initial_channel, ClockMode::FixedBurst)
    }

    /// A dispatcher that follows a Start byte with what `clock` says.
    pub fn with_clock(initial_channel: u8, clock: ClockMode) -> (dispatcher: Dispatcher)
        ensures
            dispatcher@ == Machine::initial(initial_channel, clock),
            dispatcher@.wf(),
    {
        Dispatcher {
            state: Machine {
                connection: ConnectionState::Disconnected,
                channel: initial_channel,
                tempo: TempoState::new(),
                clock,
                phase: Phase::Idle,
            },
        }
    }

    /// The state that the dispatcher is in.
    pub fn state(&self) -> (state: Machine)
        ensures
            state == self@,
            state.wf(),
    {
        proof {
            use_type_invariant(self);
        }
        self.state
    }

    /// The action that the dispatcher is waiting for.
    pub fn pending(&self) -> (action: Action)
        ensures
            action == self@.pending(),
    {
        pending_of(&self.state)
    }

    /// Whether a port is open.
    pub fn is_connected(&self) -> (open: bool)
        ensures
            open == self@.connected(),
    {
        self.state.connection.is_connected()
    }

    /// Whether the session has ended.
    pub fn is_halted(&self) -> (halted: bool)
        ensures
            halted == (self@.phase is Halted),
    {
        match self.state.phase {
            Phase::Halted => true,
            _ => false,
        }
    }

    /// Takes one step: moves to the state that follows on `event`, and says
    /// what to do next and what to report.
    pub fn step(&mut self, event: Event) -> (step: Step)
        ensures
            final(self)@ == old(self)@.next(event),
            final(self)@.wf(),
            step.action == final(self)@.pending(),
            step.notice == old(self)@.notice(event),
    {
        proof {
            use_type_invariant(&*self);
            lemma_step_keeps_wf(self.state, event);
        }
        let reaction = react(self.state, event);
        self.state = reaction.state;
        Step { action: pending_of(&self.state), notice: reaction.notice }
    }
}

} // verus!
