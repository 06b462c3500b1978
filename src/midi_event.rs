use vstd::prelude::*;

verus! {

/// A point in time, in seconds from the start of the piece, held exactly as
/// `tick_micros / (pulses_per_qn * 1_000_000)`.
///
/// `tick_micros` is a sum of tick counts, each multiplied by the tempo (in
/// microseconds per quarter note) that held over those ticks.
#[derive(Clone, Copy, Debug, PartialEq, Eq)]
pub struct Timestamp {
    pub tick_micros: u64,
    pub pulses_per_qn: u16,
}

impl Timestamp {
    /// A timestamp is meaningful only over a non-zero division.
    pub open spec fn wf(self) -> bool {
        self.pulses_per_qn > 0
    }

    /// The whole milliseconds in this timestamp, truncated.
    pub open spec fn whole_millis(self) -> nat
        recommends
            self.wf(),
    {
        (self.tick_micros as nat) / ((self.pulses_per_qn as nat) * 1000)
    }

    /// Whether two timestamps stand for the same number of seconds.
    pub open spec fn same_instant(self, other: Timestamp) -> bool {
        (self.tick_micros as int) * (other.pulses_per_qn as int) == (other.tick_micros as int)
            * (self.pulses_per_qn as int)
    }

    /// A timestamp at a whole number of microseconds.
    pub fn from_micros(micros: u64) -> (r: Timestamp)
        ensures
            r.wf(),
            r.tick_micros == micros,
            r.pulses_per_qn == 1,
    {
        Timestamp { tick_micros: micros, pulses_per_qn: 1 }
    }

    /// Exact comparison of the instants two timestamps stand for.
    pub fn same_instant_as(&self, other: &Timestamp) -> (r: bool)
        ensures
            r == self.same_instant(*other),
    {
        let a = self.tick_micros as u128;
        let b = other.tick_micros as u128;
        let p = self.pulses_per_qn as u128;
        let q = other.pulses_per_qn as u128;
        proof {
            lemma_product_fits(a as int, q as int);
            lemma_product_fits(b as int, p as int);
        }
        a * q == b * p
    }
}

/// A `u64` times a `u16` fits in a `u128`.
proof fn lemma_product_fits(x: int, y: int)
    requires
        0 <= x <= u64::MAX,
        0 <= y <= u16::MAX,
    ensures
        0 <= x * y <= u128::MAX,
{
    assert(0 <= x * y <= (u64::MAX as int) * (u16::MAX as int)) by (nonlinear_arith)
        requires
            0 <= x <= u64::MAX,
            0 <= y <= u16::MAX,
    ;
}

/// The typed message of an emitted event.
#[derive(Clone, Copy, Debug, PartialEq, Eq)]
pub enum Message {
    NoteOn(u8, u8),
    NoteOff(u8, u8),
    ControlChange(u8, u8),
}

/// One emitted event: a message on a 1-based channel at a point in time.
#[derive(Clone, Copy, Debug, PartialEq, Eq)]
pub struct MidiEvent {
    pub timestamp: Timestamp,
    pub message: Message,
    pub channel: u8,
}

} // verus!
