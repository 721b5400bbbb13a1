//! What holds of every run of the machine.
use crate::clock::{TempoState, Train};
use crate::command::MidiCommand;
use crate::connection::{port_exists, ConnectionState};
use crate::error::Fault;
use crate::machine::{Action, After, ClockMode, Event, Machine, Notice, Phase};
use crate::message::{is_channel, Message, CLOCK, START};
use vstd::prelude::*;

verus! {

/// The machine starts out in one of its states, idle and with no port open.
pub proof fn lemma_initial(channel: u8, clock: ClockMode)
    ensures
        Machine::initial(channel, clock).wf(),
        Machine::initial(channel, clock).phase is Idle,
        !Machine::initial(channel, clock).connected(),
        Machine::initial(channel, clock).pending() is Receive,
{
}

/// No step leads out of the machine's states.
pub proof fn lemma_step_keeps_wf(s: Machine, event: Event)
    requires
        s.wf(),
    ensures
        s.next(event).wf(),
{
}

/// No run leads out of the machine's states.
pub proof fn lemma_run_keeps_wf(s: Machine, events: Seq<Event>)
    requires
        s.wf(),
    ensures
        s.run(events).wf(),
    decreases events.len(),
{
    if events.len() > 0 {
        lemma_step_keeps_wf(s, events.first());
        lemma_run_keeps_wf(s.next(events.first()), events.drop_first());
    }
}

/// The machine asks for a command when it is idle and only then, and asks to
/// stop when the session has ended and only then.
pub proof fn lemma_receives_when_idle(s: Machine)
    ensures
        s.pending() is Receive <==> s.phase is Idle,
        s.pending() is Halt <==> s.phase is Halted,
{
}

/// An event that answers nothing changes nothing and is not reported. In
/// particular a command that arrives while another is being applied has no
/// effect on it.
pub proof fn lemma_unawaited_is_ignored(s: Machine, event: Event)
    requires
        !s.awaits(event),
    ensures
        s.next(event) == s,
        s.notice(event) is None,
        s.wrote(event) == Seq::<u8>::empty(),
{
}

/// While a command is being applied no other is taken.
pub proof fn lemma_busy_ignores_commands(s: Machine, command: MidiCommand)
    requires
        !(s.phase is Idle),
    ensures
        s.next(Event::Command(command)) == s,
        s.notice(Event::Command(command)) is None,
        s.wrote(Event::Command(command)) == Seq::<u8>::empty(),
{
}

/// A port is counted or opened only while none is open, and a message is
/// written only while one is; what is written is well formed.
pub proof fn lemma_one_port(s: Machine)
    requires
        s.wf(),
    ensures
        s.pending() is Open || s.pending() is CountPorts ==> !s.connected(),
        s.pending() is Release ==> s.connected(),
        s.pending() matches Action::Send(message) ==> s.connected() && message.well_formed()
            && message.addressable(),
        s.phase is Halted ==> !s.connected(),
{
}

/// The first of a sequence of events is dealt with before the rest.
pub proof fn lemma_run_first(s: Machine, event: Event, rest: Seq<Event>)
    ensures
        s.run(seq![event] + rest) == s.next(event).run(rest),
        s.performed(seq![event] + rest) == seq![s.pending()] + s.next(event).performed(rest),
        s.written(seq![event] + rest) == s.wrote(event) + s.next(event).written(rest),
        s.answered_by(seq![event] + rest) == (s.awaits(event) && s.next(event).answered_by(rest)),
{
    let events = seq![event] + rest;
    assert(events.first() == event);
    assert(events.drop_first() =~= rest);
}

/// What follows on a single event.
pub proof fn lemma_run_one(s: Machine, event: Event)
    ensures
        s.run(seq![event]) == s.next(event),
        s.performed(seq![event]) == seq![s.pending()],
        s.written(seq![event]) == s.wrote(event),
        s.answered_by(seq![event]) == s.awaits(event),
{
    lemma_run_first(s, event, Seq::empty());
    assert(seq![event] + Seq::<Event>::empty() =~= seq![event]);
    assert(s.next(event).run(Seq::empty()) == s.next(event));
    assert(s.next(event).performed(Seq::empty()) =~= Seq::<Action>::empty());
    assert(s.next(event).written(Seq::empty()) =~= Seq::<u8>::empty());
    assert(seq![s.pending()] + Seq::<Action>::empty() =~= seq![s.pending()]);
    assert(s.wrote(event) + Seq::<u8>::empty() =~= s.wrote(event));
}

/// Events are dealt with in their order: what a run does is what its first
/// part does, followed by what the rest does from where the first part left
/// off. So every byte that is written on account of an earlier event goes out
/// before any byte that is written on account of a later one.
pub proof fn lemma_run_in_order(s: Machine, first: Seq<Event>, rest: Seq<Event>)
    ensures
        s.run(first + rest) == s.run(first).run(rest),
        s.performed(first + rest) == s.performed(first) + s.run(first).performed(rest),
        s.written(first + rest) == s.written(first) + s.run(first).written(rest),
        s.answered_by(first + rest) == (s.answered_by(first) && s.run(first).answered_by(rest)),
    decreases first.len(),
{
    if first.len() == 0 {
        assert(first + rest =~= rest);
        assert(s.performed(first) + s.performed(rest) =~= s.performed(rest));
        assert(s.written(first) + s.written(rest) =~= s.written(rest));
    } else {
        let event = first.first();
        let tail = first.drop_first();
        assert(first =~= seq![event] + tail);
        assert(first + rest =~= seq![event] + (tail + rest));
        lemma_run_first(s, event, tail);
        lemma_run_first(s, event, tail + rest);
        lemma_run_in_order(s.next(event), tail, rest);
        assert(seq![s.pending()] + (s.next(event).performed(tail) + s.next(event).run(
            tail,
        ).performed(rest)) =~= (seq![s.pending()] + s.next(event).performed(tail)) + s.next(
            event,
        ).run(tail).performed(rest));
        assert(s.wrote(event) + (s.next(event).written(tail) + s.next(event).run(tail).written(
            rest,
        )) =~= (s.wrote(event) + s.next(event).written(tail)) + s.next(event).run(tail).written(
            rest,
        ));
    }
}

/// To disconnect when no port is open changes nothing, and what is reported
/// is no fault.
pub proof fn lemma_disconnect_is_idempotent(s: Machine)
    requires
        s.phase is Idle,
        !s.connected(),
    ensures
        s.next(Event::Command(MidiCommand::Disconnect)) == s,
        s.notice(Event::Command(MidiCommand::Disconnect)) == Some(Notice::Disconnected),
        s.wrote(Event::Command(MidiCommand::Disconnect)) == Seq::<u8>::empty(),
{
}

/// To disconnect releases the open port and nothing else: afterwards no port
/// is open and the machine is idle again, and a second disconnect finds
/// nothing to do.
pub proof fn lemma_disconnect_releases(s: Machine)
    requires
        s.phase is Idle,
        s.connected(),
    ensures
        s.next(Event::Command(MidiCommand::Disconnect)).pending() is Release,
        s.run(seq![Event::Command(MidiCommand::Disconnect), Event::Done]) == (Machine {
            connection: ConnectionState::Disconnected,
            ..s
        }),
        s.written(seq![Event::Command(MidiCommand::Disconnect), Event::Done]) == Seq::<
            u8,
        >::empty(),
{
    let disconnect = Event::Command(MidiCommand::Disconnect);
    assert(seq![disconnect, Event::Done] =~= seq![disconnect] + seq![Event::Done]);
    lemma_run_first(s, disconnect, seq![Event::Done]);
    lemma_run_one(s.next(disconnect), Event::Done);
    assert(s.wrote(disconnect) + s.next(disconnect).wrote(Event::Done) =~= Seq::<u8>::empty());
}

/// A message for a channel that is sent while no port is open is dropped: the
/// state stays as it is, nothing is written, and the next command is asked
/// for. The drop is reported as the soft fault, unless the message had a field
/// out of range.
pub proof fn lemma_offline_data_is_dropped(s: Machine, command: MidiCommand)
    requires
        s.phase is Idle,
        !s.connected(),
        command.carries_data(),
    ensures
        s.next(Event::Command(command)) == s,
        s.next(Event::Command(command)).pending() is Receive,
        s.wrote(Event::Command(command)) == Seq::<u8>::empty(),
        s.notice(Event::Command(command)) == Some(
            Notice::Fault(
                if command.valid() {
                    Fault::NotConnected
                } else {
                    Fault::InvalidParameter
                },
            ),
        ),
{
}

/// However many messages are sent while no port is open, none reaches the
/// wire and the machine stays as it is.
pub proof fn lemma_offline_run_is_silent(s: Machine, events: Seq<Event>)
    requires
        s.phase is Idle,
        !s.connected(),
        forall|i: int|
            0 <= i < events.len() ==> (#[trigger] events[i] matches Event::Command(command)
                && command.message() is Some),
    ensures
        s.run(events) == s,
        s.written(events) == Seq::<u8>::empty(),
        s.answered_by(events),
    decreases events.len(),
{
    if events.len() > 0 {
        assert(events[0] is Command);
        let rest = events.drop_first();
        assert forall|i: int| 0 <= i < rest.len() implies (#[trigger] rest[i] matches Event::Command(
            command,
        ) && command.message() is Some) by {
            assert(rest[i] == events[i + 1]);
        }
        lemma_offline_run_is_silent(s, rest);
        assert(s.wrote(events.first()) + s.written(rest) =~= Seq::<u8>::empty());
    }
}

/// Once the session has ended nothing happens any more: whatever is enqueued
/// behind the command that ended it changes nothing and writes nothing.
pub proof fn lemma_halted_is_final(s: Machine, events: Seq<Event>)
    requires
        s.phase is Halted,
    ensures
        s.run(events) == s,
        s.written(events) == Seq::<u8>::empty(),
        forall|i: int| 0 <= i < events.len() ==> #[trigger] s.performed(events)[i] == Action::Halt,
        s.performed(events).len() == events.len(),
    decreases events.len(),
{
    if events.len() > 0 {
        let rest = events.drop_first();
        lemma_halted_is_final(s, rest);
        assert(s.wrote(events.first()) + s.written(rest) =~= Seq::<u8>::empty());
        assert forall|i: int| 0 <= i < events.len() implies #[trigger] s.performed(events)[i]
            == Action::Halt by {
            if i > 0 {
                assert(s.performed(events)[i] == s.performed(rest)[i - 1]);
            }
        }
    }
}

/// To quit ends the session, after the open port, if there is one, has been
/// released.
pub proof fn lemma_quit_ends_the_session(s: Machine)
    requires
        s.phase is Idle,
    ensures
        !s.connected() ==> s.next(Event::Command(MidiCommand::Quit)) == s.at(Phase::Halted),
        s.connected() ==> s.next(Event::Command(MidiCommand::Quit)).pending() is Release
            && s.next(Event::Command(MidiCommand::Quit)).next(Event::Done) == (Machine {
            connection: ConnectionState::Disconnected,
            phase: Phase::Halted,
            ..s
        }),
        s.next(Event::Closed) == s.next(Event::Command(MidiCommand::Quit)),
{
}

/// Nothing but the wish to quit, or a queue that has closed, ends the
/// session: no fault does.
pub proof fn lemma_only_quit_halts(s: Machine, event: Event)
    requires
        s.wf(),
        !(s.phase is Halted),
        s.phase != Phase::Releasing(After::Halt),
    ensures
        s.next(event).phase is Halted || s.next(event).phase == Phase::Releasing(After::Halt)
            ==> s.phase is Idle && (event == Event::Command(MidiCommand::Quit) || event is Closed),
{
}

/// `count` answers, each of which says that the action was performed.
pub open spec fn all_done(count: nat) -> Seq<Event> {
    Seq::new(count, |i: int| Event::Done)
}

/// `count` clock bytes.
pub open spec fn clock_bytes(count: nat) -> Seq<u8> {
    Seq::new(count, |i: int| CLOCK)
}

/// The actions that a run of clock pulses consists of: for each pulse the
/// write and then the rest.
pub open spec fn pulses(train: Train) -> Seq<Action>
    decreases train.left,
{
    if train.left == 0 {
        Seq::empty()
    } else {
        seq![Action::Send(Message::Clock), Action::Sleep(train.rest)] + pulses(train.advanced())
    }
}

/// A message is written once and the machine is then as it was before. If the
/// write fails, the message is dropped, the fault is reported and the port
/// stays open.
pub proof fn lemma_message_is_sent(s: Machine, command: MidiCommand, answer: Event)
    requires
        s.phase is Idle,
        s.connected(),
        command.valid(),
        command.message() is Some,
        command != MidiCommand::Start,
        answer is Done || answer is Failed,
    ensures
        s.run(seq![Event::Command(command), answer]) == s,
        s.performed(seq![Event::Command(command), answer]) == seq![
            Action::Receive,
            Action::Send(command.message().unwrap()),
        ],
        s.written(seq![Event::Command(command), answer]) == (if answer is Done {
            command.message().unwrap().wire()
        } else {
            Seq::empty()
        }),
        s.next(Event::Command(command)).notice(answer) == (if answer is Done {
            None
        } else {
            Some(Notice::Fault(Fault::DeviceError))
        }),
{
    let taken = Event::Command(command);
    assert(seq![taken, answer] =~= seq![taken] + seq![answer]);
    lemma_run_first(s, taken, seq![answer]);
    lemma_run_one(s.next(taken), answer);
    assert(seq![Action::Receive] + seq![Action::Send(command.message().unwrap())] =~= seq![
        Action::Receive,
        Action::Send(command.message().unwrap()),
    ]);
    assert(s.wrote(taken) + s.next(taken).wrote(answer) =~= s.next(taken).wrote(answer));
}

/// A run of pulses is played to its end: each pulse is written and rested
/// after, and then the machine is idle. In a run that is not strict a pulse
/// that cannot be written is passed over, and the run is none the shorter for
/// it.
pub proof fn lemma_train_is_played(s: Machine, train: Train, answers: Seq<Event>)
    requires
        s.wf(),
        s.connected(),
        s.phase == Machine::carry_on(train),
        answers.len() == 2 * train.left,
        forall|i: int|
            0 <= i < answers.len() ==> (#[trigger] answers[i] is Done || (answers[i] is Failed
                && !train.strict)),
    ensures
        s.answered_by(answers),
        s.run(answers) == s.at(Phase::Idle),
        s.performed(answers) == pulses(train),
        answers == all_done(answers.len()) ==> s.written(answers) == clock_bytes(train.left as nat),
    decreases train.left,
{
    if train.left == 0 {
        assert(s.written(answers) =~= clock_bytes(0));
    } else {
        let first = answers[0];
        let second = answers[1];
        let rest = answers.skip(2);
        let rested = s.next(first).next(second);
        assert(answers =~= seq![first] + (seq![second] + rest));
        lemma_run_first(s, first, seq![second] + rest);
        lemma_run_first(s.next(first), second, rest);
        assert forall|i: int| 0 <= i < rest.len() implies (#[trigger] rest[i] is Done || (
        rest[i] is Failed && !train.strict)) by {
            assert(rest[i] == answers[i + 2]);
        }
        lemma_train_is_played(rested, train.advanced(), rest);
        assert(seq![s.pending()] + (seq![s.next(first).pending()] + pulses(train.advanced()))
            =~= pulses(train));
        if answers == all_done(answers.len()) {
            assert(rest =~= all_done(rest.len()));
            assert(s.wrote(first) + (s.next(first).wrote(second) + clock_bytes(
                train.advanced().left as nat,
            )) =~= clock_bytes(train.left as nat));
        }
    }
}

/// To start is to write the Start byte and then to play the run of pulses
/// that the machine is set up for; then the machine is as it was before.
pub proof fn lemma_start_is_played(s: Machine)
    requires
        s.wf(),
        s.phase is Idle,
        s.connected(),
    ensures
        ({
            let events = seq![Event::Command(MidiCommand::Start), Event::Done] + all_done(
                2 * s.train().left as nat,
            );
            &&& s.answered_by(events)
            &&& s.run(events) == s
            &&& s.performed(events) == seq![Action::Receive, Action::Send(Message::Start)] + pulses(
                s.train(),
            )
            &&& s.written(events) == seq![START] + clock_bytes(s.train().left as nat)
        }),
{
    let start = Event::Command(MidiCommand::Start);
    let answers = all_done(2 * s.train().left as nat);
    let events = seq![start, Event::Done] + answers;
    let started = s.next(start).next(Event::Done);
    assert(events =~= seq![start] + (seq![Event::Done] + answers));
    lemma_run_first(s, start, seq![Event::Done] + answers);
    lemma_run_first(s.next(start), Event::Done, answers);
    lemma_train_is_played(started, s.train(), answers);
    assert(seq![Action::Receive] + (seq![Action::Send(Message::Start)] + pulses(s.train()))
        =~= seq![Action::Receive, Action::Send(Message::Start)] + pulses(s.train()));
    assert(s.wrote(start) + (s.next(start).wrote(Event::Done) + clock_bytes(
        s.train().left as nat,
    )) =~= seq![START] + clock_bytes(s.train().left as nat));
}

/// The fixed burst: the Start byte, then six pulses, each followed by a rest
/// of eight milliseconds, whatever the tempo.
pub proof fn lemma_fixed_burst(s: Machine)
    requires
        s.wf(),
        s.phase is Idle,
        s.connected(),
        s.clock is FixedBurst,
    ensures
        ({
            let events = seq![Event::Command(MidiCommand::Start)] + all_done(13);
            let pulse = Action::Send(Message::Clock);
            let rest = Action::Sleep(8_000);
            &&& s.answered_by(events)
            &&& s.run(events) == s
            &&& s.performed(events) == seq![
                Action::Receive,
                Action::Send(Message::Start),
                pulse,
                rest,
                pulse,
                rest,
                pulse,
                rest,
                pulse,
                rest,
                pulse,
                rest,
                pulse,
                rest,
            ]
            &&& s.written(events) == seq![0xFAu8, 0xF8, 0xF8, 0xF8, 0xF8, 0xF8, 0xF8]
        }),
{
    lemma_start_is_played(s);
    assert(seq![Event::Command(MidiCommand::Start)] + all_done(13) =~= seq![
        Event::Command(MidiCommand::Start),
        Event::Done,
    ] + all_done(12));
    reveal_with_fuel(pulses, 7);
    let pulse = Action::Send(Message::Clock);
    let rest = Action::Sleep(8_000);
    assert(seq![Action::Receive, Action::Send(Message::Start)] + pulses(Train::burst()) =~= seq![
        Action::Receive,
        Action::Send(Message::Start),
        pulse,
        rest,
        pulse,
        rest,
        pulse,
        rest,
        pulse,
        rest,
        pulse,
        rest,
        pulse,
        rest,
    ]);
    assert(seq![START] + clock_bytes(6) =~= seq![0xFAu8, 0xF8, 0xF8, 0xF8, 0xF8, 0xF8, 0xF8]);
}

/// If the Start byte cannot be written, no pulse follows it.
pub proof fn lemma_failed_start_has_no_pulses(s: Machine)
    requires
        s.phase is Idle,
        s.connected(),
    ensures
        s.run(seq![Event::Command(MidiCommand::Start), Event::Failed]) == s,
        s.performed(seq![Event::Command(MidiCommand::Start), Event::Failed]) == seq![
            Action::Receive,
            Action::Send(Message::Start),
        ],
        s.written(seq![Event::Command(MidiCommand::Start), Event::Failed]) == Seq::<u8>::empty(),
        s.next(Event::Command(MidiCommand::Start)).notice(Event::Failed) == Some(
            Notice::Fault(Fault::DeviceError),
        ),
{
    let start = Event::Command(MidiCommand::Start);
    assert(seq![start, Event::Failed] =~= seq![start] + seq![Event::Failed]);
    lemma_run_first(s, start, seq![Event::Failed]);
    lemma_run_one(s.next(start), Event::Failed);
    assert(seq![Action::Receive] + seq![Action::Send(Message::Start)] =~= seq![
        Action::Receive,
        Action::Send(Message::Start),
    ]);
    assert(s.wrote(start) + s.next(start).wrote(Event::Failed) =~= Seq::<u8>::empty());
}

/// The events that carry a connection through from the command to the open
/// port: the release of the port that was open, if one was, then the count of
/// the host's ports, then the opening.
pub open spec fn connecting(
    s: Machine,
    port_index: usize,
    channel: u8,
    port_count: usize,
    opened: Event,
) -> Seq<Event> {
    let command = seq![Event::Command(MidiCommand::Connect(Some(port_index), channel))];
    let release = if s.connected() {
        seq![Event::Done]
    } else {
        Seq::empty()
    };
    command + release + seq![Event::Ports(port_count), opened]
}

/// A connection to a port that the host has, on a channel that exists, opens
/// that port for that channel. The port that was open before is released
/// first, so that never two are open, and nothing is written to it any more.
/// If the port cannot be opened, none is open afterwards.
pub proof fn lemma_connect_replaces(
    s: Machine,
    port_index: usize,
    channel: u8,
    port_count: usize,
    opened: Event,
)
    requires
        s.phase is Idle,
        is_channel(channel),
        port_exists(port_index, port_count),
        opened is Done || opened is Failed,
    ensures
        ({
            let events = connecting(s, port_index, channel, port_count, opened);
            let before = if s.connected() {
                seq![Action::Receive, Action::Release]
            } else {
                seq![Action::Receive]
            };
            &&& s.answered_by(events)
            &&& s.performed(events) == before + seq![Action::CountPorts, Action::Open(port_index)]
            &&& s.written(events) == Seq::<u8>::empty()
            &&& s.run(events) == (Machine {
                connection: if opened is Done {
                    ConnectionState::Connected { port_index, channel }
                } else {
                    ConnectionState::Disconnected
                },
                channel,
                ..s
            })
        }),
{
    let command = Event::Command(MidiCommand::Connect(Some(port_index), channel));
    let count = Event::Ports(port_count);
    let events = connecting(s, port_index, channel, port_count, opened);
    let taken = s.next(command);
    if s.connected() {
        let released = taken.next(Event::Done);
        assert(events =~= seq![command] + (seq![Event::Done] + (seq![count] + seq![opened])));
        lemma_run_first(s, command, seq![Event::Done] + (seq![count] + seq![opened]));
        lemma_run_first(taken, Event::Done, seq![count] + seq![opened]);
        lemma_run_first(released, count, seq![opened]);
        lemma_run_one(released.next(count), opened);
        assert(s.performed(events) =~= seq![Action::Receive, Action::Release] + seq![
            Action::CountPorts,
            Action::Open(port_index),
        ]);
        assert(s.written(events) =~= Seq::<u8>::empty());
    } else {
        assert(events =~= seq![command] + (seq![count] + seq![opened]));
        lemma_run_first(s, command, seq![count] + seq![opened]);
        lemma_run_first(taken, count, seq![opened]);
        lemma_run_one(taken.next(count), opened);
        assert(s.performed(events) =~= seq![Action::Receive] + seq![
            Action::CountPorts,
            Action::Open(port_index),
        ]);
        assert(s.written(events) =~= Seq::<u8>::empty());
    }
}

/// A connection to a port that the host does not have opens nothing: the fault
/// is reported, and no port is open afterwards, whether one was before or
/// not.
pub proof fn lemma_no_such_port(s: Machine, port_index: usize, channel: u8, port_count: usize)
    requires
        s.phase is Idle,
        !s.connected(),
        is_channel(channel),
        !port_exists(port_index, port_count),
    ensures
        ({
            let sought = s.next(Event::Command(MidiCommand::Connect(Some(port_index), channel)));
            &&& sought.pending() is CountPorts
            &&& sought.next(Event::Ports(port_count)) == (Machine { channel, ..s })
            &&& sought.notice(Event::Ports(port_count)) == Some(Notice::Fault(Fault::NoSuchPort))
            &&& sought.next(Event::Failed) == (Machine { channel, ..s })
            &&& sought.notice(Event::Failed) == Some(Notice::Fault(Fault::DeviceError))
        }),
{
}

/// A connection without a port index sets the channel for the next connection
/// and does nothing else.
pub proof fn lemma_connect_without_port(s: Machine, channel: u8)
    requires
        s.phase is Idle,
        is_channel(channel),
    ensures
        s.next(Event::Command(MidiCommand::Connect(None, channel))) == (Machine { channel, ..s }),
        s.notice(Event::Command(MidiCommand::Connect(None, channel))) is None,
{
}

/// A tempo is kept until the next one is set; it writes nothing. A tempo of
/// zero is refused and the tempo stays as it was.
pub proof fn lemma_tempo_is_kept(s: Machine, tempo: u32)
    requires
        s.phase is Idle,
    ensures
        s.next(Event::Command(MidiCommand::SetTempo(tempo))).pending() is Receive,
        tempo > 0 ==> s.next(Event::Command(MidiCommand::SetTempo(tempo))) == (Machine {
            tempo: TempoState { tempo },
            ..s
        }) && s.notice(Event::Command(MidiCommand::SetTempo(tempo))) == Some(
            Notice::TempoSet(tempo),
        ),
        tempo == 0 ==> s.next(Event::Command(MidiCommand::SetTempo(tempo))) == s && s.notice(
            Event::Command(MidiCommand::SetTempo(tempo)),
        ) == Some(Notice::Fault(Fault::InvalidParameter)),
{
}

/// A command with a field out of range is refused whole: the state stays as
/// it is, nothing is written, and the fault is reported.
pub proof fn lemma_invalid_is_refused(s: Machine, command: MidiCommand)
    requires
        s.phase is Idle,
        !command.valid(),
    ensures
        s.next(Event::Command(command)) == s,
        s.notice(Event::Command(command)) == Some(Notice::Fault(Fault::InvalidParameter)),
{
}

/// An upper bound on the number of answers that the machine still needs
/// before it asks for the next command.
pub open spec fn effort(s: Machine) -> nat {
    match s.phase {
        Phase::Idle => 0,
        Phase::Releasing(After::Connect(_)) => 3,
        Phase::Releasing(_) => 1,
        Phase::Probing(_) => 2,
        Phase::Opening(_) => 1,
        Phase::Sending(_) => 1,
        Phase::Starting => 1 + 2 * s.train().left as nat,
        Phase::Pulsing(train) => 2 * train.left as nat,
        Phase::Resting(train) => 1 + 2 * train.left as nat,
        Phase::Halted => 0,
    }
}

/// Every answer brings the end of the command in hand nearer: no command
/// keeps the machine from the queue for ever, whatever fails.
pub proof fn lemma_progress(s: Machine, event: Event)
    requires
        s.wf(),
        !(s.phase is Idle),
        s.awaits(event),
    ensures
        effort(s.next(event)) < effort(s),
{
}

/// The port that the host has open once `action` has been performed with the
/// outcome `event`, if `open` was the port that it had open before. A release
/// closes the port whatever is said of it; an opening opens one if it
/// succeeds; nothing else touches the port.
pub open spec fn handle_after(open: Option<usize>, action: Action, event: Event) -> Option<usize> {
    match action {
        Action::Release => if event is Done || event is Failed {
            None
        } else {
            open
        },
        Action::Open(port_index) => if event is Done {
            Some(port_index)
        } else {
            open
        },
        _ => open,
    }
}

/// What the machine believes of the connection is what the host has open,
/// step for step. With [`lemma_one_port`], which says that a port is only
/// opened while none is open, this is why the host never has two ports open.
pub proof fn lemma_connection_mirrors_host(s: Machine, open: Option<usize>, event: Event)
    requires
        s.wf(),
        open == s.connection.port(),
    ensures
        handle_after(open, s.pending(), event) == s.next(event).connection.port(),
        s.pending() is Open ==> open is None,
        s.wrote(event).len() > 0 ==> open is Some,
{
}

/// Whatever is enqueued behind the command to quit is never applied: the
/// session ends with no port open, and from the command on nothing is
/// written.
pub proof fn lemma_nothing_after_quit(s: Machine, later: Seq<Event>)
    requires
        s.phase is Idle,
    ensures
        ({
            let quit = if s.connected() {
                seq![Event::Command(MidiCommand::Quit), Event::Done]
            } else {
                seq![Event::Command(MidiCommand::Quit)]
            };
            &&& s.run(quit + later).phase is Halted
            &&& !s.run(quit + later).connected()
            &&& s.written(quit + later) == Seq::<u8>::empty()
        }),
{
    let taken = Event::Command(MidiCommand::Quit);
    let quit = if s.connected() {
        seq![taken, Event::Done]
    } else {
        seq![taken]
    };
    lemma_run_in_order(s, quit, later);
    if s.connected() {
        assert(quit =~= seq![taken] + seq![Event::Done]);
        lemma_run_first(s, taken, seq![Event::Done]);
        lemma_run_one(s.next(taken), Event::Done);
    } else {
        lemma_run_one(s, taken);
    }
    lemma_halted_is_final(s.run(quit), later);
    assert(s.written(quit) =~= Seq::<u8>::empty());
    assert(s.written(quit) + s.run(quit).written(later) =~= Seq::<u8>::empty());
}

/// A message that is sent after a connection has been made goes out as its
/// own bytes and nothing else does: to connect writes nothing.
pub proof fn lemma_connect_then_send(
    s: Machine,
    port_index: usize,
    channel: u8,
    port_count: usize,
    command: MidiCommand,
)
    requires
        s.phase is Idle,
        is_channel(channel),
        port_exists(port_index, port_count),
        command.valid(),
        command.message() is Some,
        command != MidiCommand::Start,
    ensures
        ({
            let events = connecting(s, port_index, channel, port_count, Event::Done) + seq![
                Event::Command(command),
                Event::Done,
            ];
            &&& s.written(events) == command.message().unwrap().wire()
            &&& s.run(events).connection == (ConnectionState::Connected { port_index, channel })
            &&& s.run(events).phase is Idle
        }),
{
    let connect = connecting(s, port_index, channel, port_count, Event::Done);
    let send = seq![Event::Command(command), Event::Done];
    lemma_connect_replaces(s, port_index, channel, port_count, Event::Done);
    lemma_run_in_order(s, connect, send);
    lemma_message_is_sent(s.run(connect), command, Event::Done);
    assert(Seq::<u8>::empty() + command.message().unwrap().wire()
        =~= command.message().unwrap().wire());
}

} // verus!
