use midi_ctrl::{
    Action, ClockMode, ConnectionState, Dispatcher, Event, Fault, Machine, Message, MidiCommand,
    Notice, Phase, Step, TempoState,
};
use std::collections::VecDeque;

/// A host to run a dispatcher against: ports that can or cannot be opened,
/// and a record of everything that was done to them.
struct Rig {
    /// For each port of the host, whether it can be opened.
    ports: Vec<bool>,
    /// Whether the host's ports can be counted.
    host_up: bool,
    /// How many writes succeed before every further one fails.
    good_writes: usize,
    /// The port that is open.
    open: Option<usize>,
    /// What was written, with the port that it was written to.
    written: Vec<(usize, Vec<u8>)>,
    /// Every action in the order in which it was performed.
    actions: Vec<Action>,
    /// Every notice in the order in which it was given.
    notices: Vec<Notice>,
    /// The most ports that were open at once.
    most_open: usize,
}

fn rig(ports: usize) -> Rig {
    Rig {
        ports: vec![true; ports],
        host_up: true,
        good_writes: usize::MAX,
        open: None,
        written: Vec::new(),
        actions: Vec::new(),
        notices: Vec::new(),
        most_open: 0,
    }
}

fn perform(rig: &mut Rig, action: Action, queue: &mut VecDeque<MidiCommand>) -> Option<Event> {
    rig.actions.push(action);
    match action {
        Action::Receive => Some(match queue.pop_front() {
            Some(command) => Event::Command(command),
            None => Event::Closed,
        }),
        Action::Release => {
            assert!(rig.open.is_some(), "nothing to release");
            rig.open = None;
            Some(Event::Done)
        }
        Action::CountPorts => {
            assert!(rig.open.is_none(), "ports counted while one is open");
            Some(if rig.host_up { Event::Ports(rig.ports.len()) } else { Event::Failed })
        }
        Action::Open(index) => {
            assert!(rig.open.is_none(), "two ports open at once");
            assert!(index < rig.ports.len(), "no such port");
            if rig.ports[index] {
                rig.open = Some(index);
                rig.most_open = rig.most_open.max(1);
                Some(Event::Done)
            } else {
                Some(Event::Failed)
            }
        }
        Action::Send(message) => {
            let port: usize = rig.open.expect("written while no port is open");
            assert!(message.is_well_formed());
            if rig.good_writes > 0 {
                rig.good_writes -= 1;
                rig.written.push((port, message.encode()));
                Some(Event::Done)
            } else {
                Some(Event::Failed)
            }
        }
        Action::Sleep(_) => Some(Event::Done),
        Action::Halt => None,
    }
}

/// Runs the dispatcher until the session ends; an empty queue counts as
/// closed.
fn drive(dispatcher: &mut Dispatcher, rig: &mut Rig, commands: &[MidiCommand]) {
    let mut queue: VecDeque<MidiCommand> = commands.iter().copied().collect();
    let mut action = dispatcher.pending();
    let mut steps: usize = 0;
    while let Some(event) = perform(rig, action, &mut queue) {
        let step: Step = dispatcher.step(event);
        if let Some(notice) = step.notice {
            rig.notices.push(notice);
        }
        action = step.action;
        steps += 1;
        assert!(steps < 1_000_000, "the dispatcher never came to an end");
    }
}

/// Runs the dispatcher until it asks for a command that the queue does not
/// have.
fn drive_until_idle(dispatcher: &mut Dispatcher, rig: &mut Rig, commands: &[MidiCommand]) {
    let mut queue: VecDeque<MidiCommand> = commands.iter().copied().collect();
    loop {
        let action = dispatcher.pending();
        if action == Action::Halt || (action == Action::Receive && queue.is_empty()) {
            return;
        }
        let event = perform(rig, action, &mut queue).unwrap();
        let step: Step = dispatcher.step(event);
        if let Some(notice) = step.notice {
            rig.notices.push(notice);
        }
    }
}

fn bytes(rig: &Rig) -> Vec<u8> {
    rig.written.iter().flat_map(|(_, b)| b.iter().copied()).collect()
}

fn cc(channel: u8, controller: u8, value: u8) -> MidiCommand {
    MidiCommand::ControlChange { channel, controller, value }
}

#[test]
fn starts_idle_and_disconnected() {
    let dispatcher = Dispatcher::new(3);
    let state: Machine = dispatcher.state();
    assert_eq!(state.connection, ConnectionState::Disconnected);
    assert_eq!(state.channel, 3);
    assert_eq!(state.tempo, TempoState { tempo: 120_000 });
    assert_eq!(state.clock, ClockMode::FixedBurst);
    assert_eq!(state.phase, Phase::Idle);
    assert_eq!(dispatcher.pending(), Action::Receive);
    assert!(!dispatcher.is_connected());
    assert!(!dispatcher.is_halted());
}

#[test]
fn connect_then_send() {
    let mut dispatcher = Dispatcher::new(1);
    let mut host = rig(1);
    drive_until_idle(
        &mut dispatcher,
        &mut host,
        &[MidiCommand::Connect(Some(0), 1), cc(1, 74, 100)],
    );
    assert_eq!(host.written, vec![(0, vec![0xB0, 74, 100])]);
    assert_eq!(
        host.actions,
        vec![
            Action::Receive,
            Action::CountPorts,
            Action::Open(0),
            Action::Receive,
            Action::Send(Message::ControlChange { channel: 1, controller: 74, value: 100 }),
        ]
    );
    assert_eq!(host.notices, vec![Notice::Connected { port_index: 0, channel: 1 }]);
    assert_eq!(
        dispatcher.state().connection,
        ConnectionState::Connected { port_index: 0, channel: 1 }
    );
    assert!(dispatcher.is_connected());
}

#[test]
fn start_burst() {
    let mut dispatcher = Dispatcher::new(9);
    let mut host = rig(1);
    drive_until_idle(&mut dispatcher, &mut host, &[MidiCommand::Connect(Some(0), 9)]);
    host.actions.clear();
    drive_until_idle(&mut dispatcher, &mut host, &[MidiCommand::Start]);
    assert_eq!(bytes(&host), vec![0xFA, 0xF8, 0xF8, 0xF8, 0xF8, 0xF8, 0xF8]);
    let pulse = Action::Send(Message::Clock);
    let rest = Action::Sleep(8_000);
    assert_eq!(
        host.actions,
        vec![
            Action::Receive,
            Action::Send(Message::Start),
            pulse, rest, pulse, rest, pulse, rest, pulse, rest, pulse, rest, pulse, rest,
        ]
    );
    // between any two pulses the dispatcher rests for eight milliseconds at least
    let mut rested: u64 = u64::MAX;
    let mut pulses: usize = 0;
    for action in &host.actions {
        match action {
            Action::Send(Message::Clock) => {
                assert!(rested >= 8_000);
                rested = 0;
                pulses += 1;
            }
            Action::Sleep(micros) => rested += micros,
            _ => {}
        }
    }
    assert_eq!(pulses, 6);
    assert_eq!(dispatcher.pending(), Action::Receive);
}

#[test]
fn start_burst_does_not_depend_on_tempo() {
    let mut dispatcher = Dispatcher::new(1);
    let mut host = rig(1);
    drive_until_idle(
        &mut dispatcher,
        &mut host,
        &[MidiCommand::Connect(Some(0), 1), MidiCommand::SetTempo(60_000), MidiCommand::Start],
    );
    assert_eq!(bytes(&host), vec![0xFA, 0xF8, 0xF8, 0xF8, 0xF8, 0xF8, 0xF8]);
    let rests: Vec<Action> =
        host.actions.iter().copied().filter(|a| matches!(a, Action::Sleep(_))).collect();
    assert_eq!(rests, vec![Action::Sleep(8_000); 6]);
}

#[test]
fn reconnect_replaces_handle() {
    let mut dispatcher = Dispatcher::new(1);
    let mut host = rig(2);
    drive_until_idle(
        &mut dispatcher,
        &mut host,
        &[
            MidiCommand::Connect(Some(0), 1),
            cc(1, 1, 1),
            MidiCommand::Connect(Some(1), 2),
            cc(2, 2, 2),
            MidiCommand::Start,
        ],
    );
    assert_eq!(host.open, Some(1));
    assert_eq!(host.most_open, 1);
    assert_eq!(
        dispatcher.state().connection,
        ConnectionState::Connected { port_index: 1, channel: 2 }
    );
    assert_eq!(host.written[0], (0, vec![0xB0, 1, 1]));
    assert!(host.written[1..].iter().all(|(port, _)| *port == 1));
    assert_eq!(host.written[1], (1, vec![0xB1, 2, 2]));
    let release = host.actions.iter().position(|a| *a == Action::Release).unwrap();
    let second_open = host.actions.iter().position(|a| *a == Action::Open(1)).unwrap();
    assert!(release < second_open);
}

#[test]
fn quit_drains_nothing_further() {
    let mut dispatcher = Dispatcher::new(1);
    let mut host = rig(1);
    drive(
        &mut dispatcher,
        &mut host,
        &[MidiCommand::Connect(Some(0), 1), MidiCommand::Quit, cc(1, 74, 100)],
    );
    assert!(host.written.is_empty());
    assert!(dispatcher.is_halted());
    assert_eq!(host.open, None);
    assert_eq!(dispatcher.state().connection, ConnectionState::Disconnected);
    assert_eq!(host.actions.last(), Some(&Action::Halt));
    // whatever comes later is not looked at
    let step = dispatcher.step(Event::Command(cc(1, 74, 100)));
    assert_eq!(step, Step { action: Action::Halt, notice: None });
    let step = dispatcher.step(Event::Done);
    assert_eq!(step, Step { action: Action::Halt, notice: None });
}

#[test]
fn quit_while_disconnected_halts_at_once() {
    let mut dispatcher = Dispatcher::new(1);
    let step = dispatcher.step(Event::Command(MidiCommand::Quit));
    assert_eq!(step, Step { action: Action::Halt, notice: None });
    assert!(dispatcher.is_halted());
}

#[test]
fn closed_queue_ends_the_session() {
    let mut dispatcher = Dispatcher::new(1);
    let mut host = rig(1);
    drive(&mut dispatcher, &mut host, &[MidiCommand::Connect(Some(0), 1)]);
    assert!(dispatcher.is_halted());
    assert_eq!(host.open, None);
    assert_eq!(
        host.actions,
        vec![
            Action::Receive,
            Action::CountPorts,
            Action::Open(0),
            Action::Receive,
            Action::Release,
            Action::Halt,
        ]
    );
}

#[test]
fn disconnect_is_idempotent() {
    let mut dispatcher = Dispatcher::new(1);
    let before: Machine = dispatcher.state();
    for _ in 0..3 {
        let step = dispatcher.step(Event::Command(MidiCommand::Disconnect));
        assert_eq!(step, Step { action: Action::Receive, notice: Some(Notice::Disconnected) });
        assert_eq!(dispatcher.state(), before);
    }
}

#[test]
fn disconnect_releases_the_port() {
    let mut dispatcher = Dispatcher::new(1);
    let mut host = rig(1);
    drive_until_idle(
        &mut dispatcher,
        &mut host,
        &[MidiCommand::Connect(Some(0), 1), MidiCommand::Disconnect, cc(1, 1, 1)],
    );
    assert_eq!(host.open, None);
    assert!(host.written.is_empty());
    assert_eq!(
        host.notices,
        vec![
            Notice::Connected { port_index: 0, channel: 1 },
            Notice::Disconnected,
            Notice::Fault(Fault::NotConnected),
        ]
    );
}

#[test]
fn offline_data_is_dropped_with_a_warning() {
    let commands = [
        cc(1, 74, 100),
        MidiCommand::NoteOn { channel: 1, note: 60, velocity: 100 },
        MidiCommand::NoteOff { channel: 1, note: 60 },
        MidiCommand::ProgramChange { channel: 1, program: 5 },
    ];
    let mut dispatcher = Dispatcher::new(1);
    let before: Machine = dispatcher.state();
    for command in commands {
        let step = dispatcher.step(Event::Command(command));
        assert_eq!(
            step,
            Step { action: Action::Receive, notice: Some(Notice::Fault(Fault::NotConnected)) }
        );
        assert_eq!(dispatcher.state(), before);
    }
    let mut host = rig(1);
    drive_until_idle(&mut dispatcher, &mut host, &commands);
    assert!(host.written.is_empty());
    assert!(host.actions.iter().all(|a| *a == Action::Receive));
}

#[test]
fn offline_transport_is_dropped_in_silence() {
    let mut dispatcher = Dispatcher::new(1);
    for command in [MidiCommand::Start, MidiCommand::Stop, MidiCommand::Continue] {
        let step = dispatcher.step(Event::Command(command));
        assert_eq!(step, Step { action: Action::Receive, notice: None });
    }
}

#[test]
fn stop_and_continue_are_single_bytes_without_pulses() {
    let mut dispatcher = Dispatcher::new(1);
    let mut host = rig(1);
    drive_until_idle(
        &mut dispatcher,
        &mut host,
        &[MidiCommand::Connect(Some(0), 1), MidiCommand::Stop, MidiCommand::Continue],
    );
    assert_eq!(host.written, vec![(0, vec![0xFC]), (0, vec![0xFB])]);
    assert!(!host.actions.iter().any(|a| matches!(a, Action::Sleep(_))));
}

#[test]
fn commands_are_applied_in_the_order_of_the_queue() {
    // two producers, whose commands reached the queue interleaved
    let first: Vec<MidiCommand> = (0u8..20).map(|i| cc(1, i, i)).collect();
    let second: Vec<MidiCommand> =
        (0u8..20).map(|i| MidiCommand::NoteOn { channel: 2, note: i, velocity: 100 }).collect();
    let mut queue: Vec<MidiCommand> = vec![MidiCommand::Connect(Some(0), 1)];
    for i in 0..20 {
        queue.push(first[i]);
        queue.push(MidiCommand::Start);
        queue.push(second[i]);
    }
    let mut dispatcher = Dispatcher::new(1);
    let mut host = rig(1);
    drive_until_idle(&mut dispatcher, &mut host, &queue);
    let mut expected: Vec<u8> = Vec::new();
    for i in 0u8..20 {
        expected.extend_from_slice(&[0xB0, i, i]);
        expected.extend_from_slice(&[0xFA, 0xF8, 0xF8, 0xF8, 0xF8, 0xF8, 0xF8]);
        expected.extend_from_slice(&[0x91, i, 100]);
    }
    assert_eq!(bytes(&host), expected);
}

#[test]
fn a_command_that_arrives_while_another_is_applied_is_not_taken() {
    let mut dispatcher = Dispatcher::new(1);
    let mut host = rig(1);
    drive_until_idle(&mut dispatcher, &mut host, &[MidiCommand::Connect(Some(0), 1)]);
    let step = dispatcher.step(Event::Command(MidiCommand::Start));
    assert_eq!(step.action, Action::Send(Message::Start));
    let busy: Machine = dispatcher.state();
    let step = dispatcher.step(Event::Command(MidiCommand::Stop));
    assert_eq!(step, Step { action: Action::Send(Message::Start), notice: None });
    assert_eq!(dispatcher.state(), busy);
}

#[test]
fn no_such_port() {
    let mut dispatcher = Dispatcher::new(1);
    let mut host = rig(2);
    drive_until_idle(&mut dispatcher, &mut host, &[MidiCommand::Connect(Some(2), 1)]);
    assert_eq!(host.notices, vec![Notice::Fault(Fault::NoSuchPort)]);
    assert_eq!(host.actions, vec![Action::Receive, Action::CountPorts]);
    assert_eq!(dispatcher.state().connection, ConnectionState::Disconnected);
    assert_eq!(dispatcher.pending(), Action::Receive);
}

#[test]
fn no_such_port_leaves_the_old_port_released() {
    let mut dispatcher = Dispatcher::new(1);
    let mut host = rig(1);
    drive_until_idle(
        &mut dispatcher,
        &mut host,
        &[MidiCommand::Connect(Some(0), 1), MidiCommand::Connect(Some(5), 1), cc(1, 1, 1)],
    );
    assert_eq!(host.open, None);
    assert!(host.written.is_empty());
    assert_eq!(
        host.notices,
        vec![
            Notice::Connected { port_index: 0, channel: 1 },
            Notice::Fault(Fault::NoSuchPort),
            Notice::Fault(Fault::NotConnected),
        ]
    );
}

#[test]
fn device_error_on_open() {
    let mut dispatcher = Dispatcher::new(1);
    let mut host = rig(2);
    host.ports[1] = false;
    drive_until_idle(&mut dispatcher, &mut host, &[MidiCommand::Connect(Some(1), 1)]);
    assert_eq!(host.notices, vec![Notice::Fault(Fault::DeviceError)]);
    assert_eq!(dispatcher.state().connection, ConnectionState::Disconnected);
    assert_eq!(dispatcher.pending(), Action::Receive);
}

#[test]
fn device_error_when_the_host_cannot_be_asked() {
    let mut dispatcher = Dispatcher::new(1);
    let mut host = rig(2);
    host.host_up = false;
    drive_until_idle(&mut dispatcher, &mut host, &[MidiCommand::Connect(Some(1), 1)]);
    assert_eq!(host.notices, vec![Notice::Fault(Fault::DeviceError)]);
    assert_eq!(host.actions, vec![Action::Receive, Action::CountPorts]);
    assert_eq!(dispatcher.state().connection, ConnectionState::Disconnected);
}

#[test]
fn failed_write_is_dropped_and_the_port_stays_open() {
    let mut dispatcher = Dispatcher::new(1);
    let mut host = rig(1);
    host.good_writes = 1;
    drive_until_idle(
        &mut dispatcher,
        &mut host,
        &[MidiCommand::Connect(Some(0), 1), cc(1, 1, 1), cc(1, 2, 2), cc(1, 3, 3)],
    );
    assert_eq!(host.written, vec![(0, vec![0xB0, 1, 1])]);
    assert_eq!(
        host.notices,
        vec![
            Notice::Connected { port_index: 0, channel: 1 },
            Notice::Fault(Fault::DeviceError),
            Notice::Fault(Fault::DeviceError),
        ]
    );
    assert!(dispatcher.is_connected());
    assert_eq!(host.open, Some(0));
    assert!(!dispatcher.is_halted());
}

#[test]
fn failed_start_byte_has_no_pulses() {
    let mut dispatcher = Dispatcher::new(1);
    let mut host = rig(1);
    host.good_writes = 0;
    drive_until_idle(
        &mut dispatcher,
        &mut host,
        &[MidiCommand::Connect(Some(0), 1), MidiCommand::Start],
    );
    assert!(host.written.is_empty());
    assert_eq!(
        host.actions,
        vec![
            Action::Receive,
            Action::CountPorts,
            Action::Open(0),
            Action::Receive,
            Action::Send(Message::Start),
        ]
    );
}

#[test]
fn failed_pulse_of_the_burst_is_passed_over() {
    let mut dispatcher = Dispatcher::new(1);
    let mut host = rig(1);
    host.good_writes = 3;
    drive_until_idle(
        &mut dispatcher,
        &mut host,
        &[MidiCommand::Connect(Some(0), 1), MidiCommand::Start],
    );
    assert_eq!(bytes(&host), vec![0xFA, 0xF8, 0xF8]);
    let pulses: usize = host.actions.iter().filter(|a| **a == Action::Send(Message::Clock)).count();
    let rests: usize = host.actions.iter().filter(|a| **a == Action::Sleep(8_000)).count();
    assert_eq!((pulses, rests), (6, 6));
    let faults: usize =
        host.notices.iter().filter(|n| **n == Notice::Fault(Fault::DeviceError)).count();
    assert_eq!(faults, 4);
    assert!(dispatcher.is_connected());
}

#[test]
fn timed_clock_follows_the_tempo() {
    let mut dispatcher = Dispatcher::with_clock(1, ClockMode::Timed { pulses: 4 });
    let mut host = rig(1);
    drive_until_idle(
        &mut dispatcher,
        &mut host,
        &[MidiCommand::Connect(Some(0), 1), MidiCommand::SetTempo(60_000), MidiCommand::Start],
    );
    assert_eq!(bytes(&host), vec![0xFA, 0xF8, 0xF8, 0xF8, 0xF8]);
    let rests: Vec<Action> =
        host.actions.iter().copied().filter(|a| matches!(a, Action::Sleep(_))).collect();
    assert_eq!(rests, vec![Action::Sleep(41_666); 4]);
}

#[test]
fn timed_clock_stops_at_the_first_failed_pulse() {
    let mut dispatcher = Dispatcher::with_clock(1, ClockMode::Timed { pulses: 4 });
    let mut host = rig(1);
    host.good_writes = 2;
    drive_until_idle(
        &mut dispatcher,
        &mut host,
        &[MidiCommand::Connect(Some(0), 1), MidiCommand::Start, MidiCommand::Stop],
    );
    assert_eq!(bytes(&host), vec![0xFA, 0xF8]);
    let pulses: usize = host.actions.iter().filter(|a| **a == Action::Send(Message::Clock)).count();
    assert_eq!(pulses, 2);
    assert_eq!(dispatcher.pending(), Action::Receive);
}

#[test]
fn timed_clock_of_no_pulses_is_the_start_byte_alone() {
    let mut dispatcher = Dispatcher::with_clock(1, ClockMode::Timed { pulses: 0 });
    let mut host = rig(1);
    drive_until_idle(
        &mut dispatcher,
        &mut host,
        &[MidiCommand::Connect(Some(0), 1), MidiCommand::Start],
    );
    assert_eq!(bytes(&host), vec![0xFA]);
}

#[test]
fn set_tempo_writes_nothing() {
    let mut dispatcher = Dispatcher::new(1);
    let mut host = rig(1);
    drive_until_idle(
        &mut dispatcher,
        &mut host,
        &[MidiCommand::Connect(Some(0), 1), MidiCommand::SetTempo(90_000)],
    );
    assert!(host.written.is_empty());
    assert_eq!(dispatcher.state().tempo, TempoState { tempo: 90_000 });
    assert_eq!(host.notices.last(), Some(&Notice::TempoSet(90_000)));
}

#[test]
fn invalid_parameter() {
    let mut dispatcher = Dispatcher::new(1);
    let mut host = rig(1);
    drive_until_idle(&mut dispatcher, &mut host, &[MidiCommand::Connect(Some(0), 1)]);
    let before: Machine = dispatcher.state();
    let bad = [
        MidiCommand::SetTempo(0),
        cc(0, 1, 1),
        cc(17, 1, 1),
        cc(1, 128, 1),
        cc(1, 1, 128),
        MidiCommand::NoteOn { channel: 1, note: 200, velocity: 1 },
        MidiCommand::NoteOff { channel: 1, note: 128 },
        MidiCommand::ProgramChange { channel: 1, program: 128 },
        MidiCommand::Connect(Some(0), 0),
        MidiCommand::Connect(None, 17),
    ];
    for command in bad {
        let step = dispatcher.step(Event::Command(command));
        assert_eq!(
            step,
            Step { action: Action::Receive, notice: Some(Notice::Fault(Fault::InvalidParameter)) }
        );
        assert_eq!(dispatcher.state(), before);
    }
}

#[test]
fn connect_without_a_port_sets_the_channel_only() {
    let mut dispatcher = Dispatcher::new(1);
    let step = dispatcher.step(Event::Command(MidiCommand::Connect(None, 5)));
    assert_eq!(step, Step { action: Action::Receive, notice: None });
    assert_eq!(dispatcher.state().channel, 5);
    assert!(!dispatcher.is_connected());
    let mut host = rig(1);
    drive_until_idle(
        &mut dispatcher,
        &mut host,
        &[MidiCommand::Connect(Some(0), 2), MidiCommand::Connect(None, 7)],
    );
    assert_eq!(
        dispatcher.state().connection,
        ConnectionState::Connected { port_index: 0, channel: 2 }
    );
    assert_eq!(dispatcher.state().channel, 7);
    assert_eq!(host.open, Some(0));
}

#[test]
fn an_answer_to_nothing_is_ignored() {
    let mut dispatcher = Dispatcher::new(1);
    let before: Machine = dispatcher.state();
    for event in [Event::Done, Event::Failed, Event::Ports(3)] {
        let step = dispatcher.step(event);
        assert_eq!(step, Step { action: Action::Receive, notice: None });
        assert_eq!(dispatcher.state(), before);
    }
}

#[test]
fn no_fault_ends_the_session() {
    let mut dispatcher = Dispatcher::new(1);
    let mut host = rig(1);
    host.good_writes = 0;
    host.ports[0] = false;
    drive_until_idle(
        &mut dispatcher,
        &mut host,
        &[
            MidiCommand::Connect(Some(0), 1),
            MidiCommand::Connect(Some(9), 1),
            cc(1, 1, 1),
            MidiCommand::SetTempo(0),
            MidiCommand::Start,
        ],
    );
    assert!(!dispatcher.is_halted());
    assert_eq!(dispatcher.pending(), Action::Receive);
}
