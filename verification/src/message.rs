//! The byte layout of the messages that this controller emits.
//!
//! A channel message is a status byte, whose high nibble names the kind of
//! message and whose low nibble is the channel, followed by one or two data
//! bytes. A real-time message is a single status byte.
use vstd::prelude::*;

verus! {

/// Status nibble of a Note Off message.
pub const NOTE_OFF: u8 = 0x80;

/// Status nibble of a Note On message.
pub const NOTE_ON: u8 = 0x90;

/// Status nibble of a Control Change message.
pub const CONTROL_CHANGE: u8 = 0xB0;

/// Status nibble of a Program Change message.
pub const PROGRAM_CHANGE: u8 = 0xC0;

/// The real-time Timing Clock byte.
pub const CLOCK: u8 = 0xF8;

/// The real-time Start byte.
pub const START: u8 = 0xFA;

/// The real-time Continue byte.
pub const CONTINUE: u8 = 0xFB;

/// The real-time Stop byte.
pub const STOP: u8 = 0xFC;

/// The largest value that a data byte can carry.
pub const DATA_MAX: u8 = 127;

/// Channels are numbered from 1 to 16 where people see them.
pub open spec fn is_channel(channel: u8) -> bool {
    1 <= channel <= 16
}

/// A data byte has its top bit clear.
pub open spec fn is_data(byte: u8) -> bool {
    byte <= DATA_MAX
}

/// The channel as the wire counts it, from 0.
pub open spec fn channel_nibble(channel: u8) -> u8
    recommends
        is_channel(channel),
{
    (channel - 1) as u8
}

/// The status byte of a channel message: the kind in the high nibble, the
/// channel in the low one.
pub open spec fn status_byte(kind: u8, channel: u8) -> u8
    recommends
        is_channel(channel),
{
    kind | channel_nibble(channel)
}

/// Whether `channel` names one of the sixteen channels.
pub fn channel_in_range(channel: u8) -> (ok: bool)
    ensures
        ok == is_channel(channel),
{
    1 <= channel && channel <= 16
}

/// Whether `byte` fits in the seven bits of a data byte.
pub fn data_in_range(byte: u8) -> (ok: bool)
    ensures
        ok == is_data(byte),
{
    byte <= DATA_MAX
}

/// Turns a channel as people number it into the nibble that the wire carries.
pub fn normalize_channel(channel: u8) -> (nibble: u8)
    requires
        is_channel(channel),
    ensures
        nibble == channel - 1,
        nibble == channel_nibble(channel),
        nibble <= 15,
{
    channel - 1
}

/// Builds the status byte of a channel message.
pub fn make_status(kind: u8, channel: u8) -> (status: u8)
    requires
        is_channel(channel),
    ensures
        status == status_byte(kind, channel),
{
    kind | normalize_channel(channel)
}

/// One message as it goes out on the wire.
#[derive(Clone, Copy, Debug, PartialEq, Eq, Structural)]
pub enum Message {
    ControlChange { channel: u8, controller: u8, value: u8 },
    ProgramChange { channel: u8, program: u8 },
    NoteOn { channel: u8, note: u8, velocity: u8 },
    NoteOff { channel: u8, note: u8 },
    Start,
    Stop,
    Continue,
    Clock,
}

impl Message {
    /// The channel that the message is addressed to; real-time messages have
    /// none.
    pub open spec fn channel(self) -> Option<u8> {
        match self {
            Message::ControlChange { channel, .. } => Some(channel),
            Message::ProgramChange { channel, .. } => Some(channel),
            Message::NoteOn { channel, .. } => Some(channel),
            Message::NoteOff { channel, .. } => Some(channel),
            _ => None,
        }
    }

    /// The message can be encoded: its channel, if it has one, is one of the
    /// sixteen.
    pub open spec fn addressable(self) -> bool {
        self.channel() matches Some(channel) ==> is_channel(channel)
    }

    /// The message is addressable and each of its data fields fits in seven
    /// bits.
    pub open spec fn well_formed(self) -> bool {
        match self {
            Message::ControlChange { channel, controller, value } => is_channel(channel)
                && is_data(controller) && is_data(value),
            Message::ProgramChange { channel, program } => is_channel(channel) && is_data(program),
            Message::NoteOn { channel, note, velocity } => is_channel(channel) && is_data(note)
                && is_data(velocity),
            Message::NoteOff { channel, note } => is_channel(channel) && is_data(note),
            _ => true,
        }
    }

    /// The bytes of the message, in the order in which they are written.
    pub open spec fn wire(self) -> Seq<u8> {
        match self {
            Message::ControlChange { channel, controller, value } => seq![
                status_byte(CONTROL_CHANGE, channel),
                controller,
                value,
            ],
            Message::ProgramChange { channel, program } => seq![
                status_byte(PROGRAM_CHANGE, channel),
                program,
            ],
            Message::NoteOn { channel, note, velocity } => seq![
                status_byte(NOTE_ON, channel),
                note,
                velocity,
            ],
            Message::NoteOff { channel, note } => seq![status_byte(NOTE_OFF, channel), note, 0u8],
            Message::Start => seq![START],
            Message::Stop => seq![STOP],
            Message::Continue => seq![CONTINUE],
            Message::Clock => seq![CLOCK],
        }
    }

    /// Whether the message can be encoded.
    pub fn is_addressable(&self) -> (ok: bool)
        ensures
            ok == self.addressable(),
    {
        match *self {
            Message::ControlChange { channel, .. } => channel_in_range(channel),
            Message::ProgramChange { channel, .. } => channel_in_range(channel),
            Message::NoteOn { channel, .. } => channel_in_range(channel),
            Message::NoteOff { channel, .. } => channel_in_range(channel),
            _ => true,
        }
    }

    /// Whether every field of the message is in its range.
    pub fn is_well_formed(&self) -> (ok: bool)
        ensures
            ok == self.well_formed(),
    {
        match *self {
            Message::ControlChange { channel, controller, value } => channel_in_range(channel)
                && data_in_range(controller) && data_in_range(value),
            Message::ProgramChange { channel, program } => channel_in_range(channel)
                && data_in_range(program),
            Message::NoteOn { channel, note, velocity } => channel_in_range(channel)
                && data_in_range(note) && data_in_range(velocity),
            Message::NoteOff { channel, note } => channel_in_range(channel) && data_in_range(note),
            _ => true,
        }
    }

    /// Encodes the message. The data fields are written as they are; only the
    /// channel is normalized.
    pub fn encode(&self) -> (bytes: Vec<u8>)
        requires
            self.addressable(),
        ensures
            bytes@ == self.wire(),
    {
        let mut bytes: Vec<u8> = Vec::new();
        match *self {
            Message::ControlChange { channel, controller, value } => {
                bytes.push(make_status(CONTROL_CHANGE, channel));
                bytes.push(controller);
                bytes.push(value);
            },
            Message::ProgramChange { channel, program } => {
                bytes.push(make_status(PROGRAM_CHANGE, channel));
                bytes.push(program);
            },
            Message::NoteOn { channel, note, velocity } => {
                bytes.push(make_status(NOTE_ON, channel));
                bytes.push(note);
                bytes.push(velocity);
            },
            Message::NoteOff { channel, note } => {
                bytes.push(make_status(NOTE_OFF, channel));
                bytes.push(note);
                bytes.push(0);
            },
            Message::Start => {
                bytes.push(START);
            },
            Message::Stop => {
                bytes.push(STOP);
            },
            Message::Continue => {
                bytes.push(CONTINUE);
            },
            Message::Clock => {
                bytes.push(CLOCK);
            },
        }
        assert(bytes@ =~= self.wire());
        bytes
    }
}

/// A kind with an empty low nibble and a channel combine without carrying:
/// the status byte is the kind plus the channel's nibble, and both can be
/// read back out of it.
pub proof fn lemma_status_byte(kind: u8, channel: u8)
    requires
        kind & 0x0F == 0,
        is_channel(channel),
    ensures
        status_byte(kind, channel) == kind + (channel - 1),
        status_byte(kind, channel) & 0xF0 == kind,
        status_byte(kind, channel) & 0x0F == channel - 1,
{
    let nibble: u8 = (channel - 1) as u8;
    assert(kind & 0x0F == 0 && nibble <= 15 ==> (kind | nibble) == kind + nibble && (kind | nibble)
        & 0xF0 == kind && (kind | nibble) & 0x0F == nibble) by (bit_vector);
}

/// Each of the sixteen channels is normalized to itself less one, and the
/// first byte of a Control Change on it is `0xB0` with that nibble set.
pub proof fn lemma_control_change_status(channel: u8, controller: u8, value: u8)
    requires
        is_channel(channel),
    ensures
        channel_nibble(channel) == channel - 1,
        0 <= channel_nibble(channel) <= 15,
        status_byte(CONTROL_CHANGE, channel) == 0xB0u8 | ((channel - 1) as u8),
        status_byte(CONTROL_CHANGE, channel) == 0xB0 + (channel - 1),
        (Message::ControlChange { channel, controller, value }).wire() == seq![
            (0xB0 + (channel - 1)) as u8,
            controller,
            value,
        ],
{
    assert(0xB0u8 & 0x0F == 0) by (bit_vector);
    lemma_status_byte(CONTROL_CHANGE, channel);
}

/// Encoding depends on the message alone: equal messages have equal bytes.
pub proof fn lemma_encoding_deterministic(a: Message, b: Message)
    requires
        a == b,
    ensures
        a.wire() == b.wire(),
{
}

/// The bytes of a well-formed message are framed: one status byte with its
/// top bit set, then at most two data bytes with theirs clear.
pub proof fn lemma_wire_framing(m: Message)
    requires
        m.well_formed(),
    ensures
        1 <= m.wire().len() <= 3,
        m.wire()[0] >= 0x80,
        forall|i: int| 1 <= i < m.wire().len() ==> is_data(#[trigger] m.wire()[i]),
{
    assert(0x80u8 & 0x0F == 0 && 0x90u8 & 0x0F == 0 && 0xB0u8 & 0x0F == 0 && 0xC0u8 & 0x0F == 0)
        by (bit_vector);
    match m {
        Message::ControlChange { channel, .. } => lemma_status_byte(CONTROL_CHANGE, channel),
        Message::ProgramChange { channel, .. } => lemma_status_byte(PROGRAM_CHANGE, channel),
        Message::NoteOn { channel, .. } => lemma_status_byte(NOTE_ON, channel),
        Message::NoteOff { channel, .. } => lemma_status_byte(NOTE_OFF, channel),
        _ => {},
    }
}

/// The encoding loses nothing but the velocity that a Note Off never had:
/// two addressable messages with the same bytes are the same message.
pub proof fn lemma_wire_injective(a: Message, b: Message)
    requires
        a.addressable(),
        b.addressable(),
        a.wire() == b.wire(),
    ensures
        a == b,
{
    assert(0x80u8 & 0x0F == 0 && 0x90u8 & 0x0F == 0 && 0xB0u8 & 0x0F == 0 && 0xC0u8 & 0x0F == 0)
        by (bit_vector);
    lemma_first_byte(a);
    lemma_first_byte(b);
    assert(a.wire().len() == b.wire().len());
    assert(a.wire()[0] == b.wire()[0]);
    if a.wire().len() >= 2 {
        assert(a.wire()[1] == b.wire()[1]);
    }
    if a.wire().len() >= 3 {
        assert(a.wire()[2] == b.wire()[2]);
    }
}

/// What the first byte of an addressable message tells of its kind and
/// channel.
proof fn lemma_first_byte(m: Message)
    requires
        m.addressable(),
    ensures
        (match m {
            Message::ControlChange { channel, .. } => m.wire()[0] == 0xB0 + (channel - 1),
            Message::ProgramChange { channel, .. } => m.wire()[0] == 0xC0 + (channel - 1),
            Message::NoteOn { channel, .. } => m.wire()[0] == 0x90 + (channel - 1),
            Message::NoteOff { channel, .. } => m.wire()[0] == 0x80 + (channel - 1),
            Message::Start => m.wire()[0] == 0xFA,
            Message::Stop => m.wire()[0] == 0xFC,
            Message::Continue => m.wire()[0] == 0xFB,
            Message::Clock => m.wire()[0] == 0xF8,
        }),
{
    assert(0x80u8 & 0x0F == 0 && 0x90u8 & 0x0F == 0 && 0xB0u8 & 0x0F == 0 && 0xC0u8 & 0x0F == 0)
        by (bit_vector);
    match m {
        Message::ControlChange { channel, .. } => lemma_status_byte(CONTROL_CHANGE, channel),
        Message::ProgramChange { channel, .. } => lemma_status_byte(PROGRAM_CHANGE, channel),
        Message::NoteOn { channel, .. } => lemma_status_byte(NOTE_ON, channel),
        Message::NoteOff { channel, .. } => lemma_status_byte(NOTE_OFF, channel),
        _ => {},
    }
}

} // verus!
