//! Tempo and the spacing of clock pulses.
//!
//! A receiver counts 24 clock pulses to the quarter note. Tempo is held in
//! thousandths of a beat per minute and time in microseconds, so that the
//! arithmetic is exact on integers.
use crate::error::Fault;
use vstd::arithmetic::div_mod::{lemma_div_is_ordered_by_denominator, lemma_fundamental_div_mod};
use vstd::prelude::*;

verus! {

/// Clock pulses per quarter note.
pub const PULSES_PER_BEAT: u64 = 24;

/// Microseconds in a minute, times the thousand by which a tempo is scaled.
pub const SCALED_MICROS_PER_MINUTE: u64 = 60_000_000_000;

/// The tempo of a dispatcher that was never told one: 120 beats per minute.
pub const DEFAULT_TEMPO: u32 = 120_000;

/// The number of pulses that follow a Start byte in the fixed burst.
pub const BURST_PULSES: u32 = 6;

/// The rest after each pulse of the fixed burst, in microseconds.
pub const BURST_REST: u64 = 8_000;

/// The time from one clock pulse to the next at `tempo` thousandths of a beat
/// per minute, in whole microseconds.
pub open spec fn pulse_interval(tempo: u32) -> int
    recommends
        tempo > 0,
{
    SCALED_MICROS_PER_MINUTE as int / (PULSES_PER_BEAT as int * tempo as int)
}

/// Computes the spacing of clock pulses for a tempo. A tempo of zero has no
/// spacing and is refused.
pub fn pulse_interval_micros(tempo: u32) -> (result: Result<u64, Fault>)
    ensures
        tempo == 0 <==> result is Err,
        result matches Err(fault) ==> fault == Fault::InvalidParameter,
        result matches Ok(micros) ==> micros == pulse_interval(tempo),
{
    if tempo == 0 {
        return Err(Fault::InvalidParameter);
    }
    let per_minute: u64 = PULSES_PER_BEAT * (tempo as u64);
    Ok(SCALED_MICROS_PER_MINUTE / per_minute)
}

/// The tempo that the dispatcher keeps between commands.
#[derive(Clone, Copy, Debug, PartialEq, Eq, Structural)]
pub struct TempoState {
    /// Thousandths of a beat per minute; never zero.
    pub tempo: u32,
}

impl TempoState {
    /// A tempo is positive.
    pub open spec fn wf(self) -> bool {
        self.tempo > 0
    }

    /// The tempo before any was set.
    pub fn new() -> (state: TempoState)
        ensures
            state.tempo == DEFAULT_TEMPO,
            state.wf(),
    {
        TempoState { tempo: DEFAULT_TEMPO }
    }

    /// Replaces the tempo. Zero is refused and leaves the tempo as it was.
    pub fn set(&mut self, tempo: u32) -> (result: Result<(), Fault>)
        ensures
            tempo == 0 <==> result is Err,
            result matches Err(fault) ==> fault == Fault::InvalidParameter,
            final(self).tempo == (if tempo == 0 {
                old(self).tempo
            } else {
                tempo
            }),
            old(self).wf() ==> final(self).wf(),
    {
        if tempo == 0 {
            Err(Fault::InvalidParameter)
        } else {
            self.tempo = tempo;
            Ok(())
        }
    }

    /// The tempo in thousandths of a beat per minute.
    pub fn get(&self) -> (tempo: u32)
        ensures
            tempo == self.tempo,
    {
        self.tempo
    }

    /// A run of `pulses` pulses spaced as this tempo asks.
    pub fn clock_train(&self, pulses: u32) -> (train: Train)
        requires
            self.wf(),
        ensures
            train == Train::timed(self.tempo, pulses),
    {
        let per_minute: u64 = PULSES_PER_BEAT * (self.tempo as u64);
        Train { left: pulses, rest: SCALED_MICROS_PER_MINUTE / per_minute, strict: true }
    }
}

/// A run of clock pulses that is still to be sent: each pulse is written and
/// then rested after.
#[derive(Clone, Copy, Debug, PartialEq, Eq, Structural)]
pub struct Train {
    /// How many pulses are still to be written.
    pub left: u32,
    /// The rest after each pulse, in microseconds.
    pub rest: u64,
    /// Whether a pulse that cannot be written ends the run. Otherwise the
    /// failure is reported and the run goes on.
    pub strict: bool,
}

impl Train {
    /// The burst that follows a Start byte: six pulses eight milliseconds
    /// apart, whatever the tempo, so that a receiver which wants clock edges
    /// after Start sees enough of them.
    pub open spec fn burst() -> Train {
        Train { left: BURST_PULSES, rest: BURST_REST, strict: false }
    }

    /// A run of `pulses` pulses spaced as `tempo` asks.
    pub open spec fn timed(tempo: u32, pulses: u32) -> Train
        recommends
            tempo > 0,
    {
        Train { left: pulses, rest: pulse_interval(tempo) as u64, strict: true }
    }

    /// The same run with one pulse less.
    pub open spec fn advanced(self) -> Train
        recommends
            self.left > 0,
    {
        Train { left: (self.left - 1) as u32, ..self }
    }

    /// Makes the fixed burst.
    pub fn fixed_burst() -> (train: Train)
        ensures
            train == Train::burst(),
    {
        Train { left: BURST_PULSES, rest: BURST_REST, strict: false }
    }

    /// Makes a tempo-accurate run of `pulses` pulses. A tempo of zero is
    /// refused.
    pub fn timing_clock(tempo: u32, pulses: u32) -> (result: Result<Train, Fault>)
        ensures
            tempo == 0 <==> result is Err,
            result matches Err(fault) ==> fault == Fault::InvalidParameter,
            result matches Ok(train) ==> train == Train::timed(tempo, pulses),
    {
        match pulse_interval_micros(tempo) {
            Ok(rest) => Ok(Train { left: pulses, rest, strict: true }),
            Err(fault) => Err(fault),
        }
    }

    /// The run once its next pulse has been dealt with.
    pub fn advance(&self) -> (train: Train)
        requires
            self.left > 0,
        ensures
            train == self.advanced(),
    {
        Train { left: self.left - 1, rest: self.rest, strict: self.strict }
    }
}

/// The spacing is the quotient rounded down: that many microseconds fit into
/// a pulse's share of the minute, and one more does not.
pub proof fn lemma_pulse_interval_bounds(tempo: u32)
    requires
        tempo > 0,
    ensures
        0 <= pulse_interval(tempo) <= 2_500_000_000,
        pulse_interval(tempo) * (24 * tempo) <= 60_000_000_000,
        60_000_000_000 < (pulse_interval(tempo) + 1) * (24 * tempo),
{
    let d: int = 24 * tempo as int;
    let q: int = 60_000_000_000int / d;
    lemma_fundamental_div_mod(60_000_000_000int, d);
    assert(60_000_000_000int == d * q + 60_000_000_000int % d);
    assert(0 <= 60_000_000_000int % d < d);
    assert(q * d == d * q) by (nonlinear_arith);
    assert((q + 1) * d == d * q + d) by (nonlinear_arith);
    assert(q >= 0) by (nonlinear_arith)
        requires
            d > 0,
            d * q + d > 0,
    ;
    assert(q <= 2_500_000_000) by (nonlinear_arith)
        requires
            d >= 24,
            q >= 0,
            d * q <= 60_000_000_000,
    ;
}

/// A faster tempo never spaces the pulses further apart.
pub proof fn lemma_pulse_interval_monotonic(slow: u32, fast: u32)
    requires
        0 < slow <= fast,
    ensures
        pulse_interval(fast) <= pulse_interval(slow),
{
    lemma_div_is_ordered_by_denominator(60_000_000_000int, 24 * slow as int, 24 * fast as int);
}

} // verus!
