use vstd::prelude::*;

verus! {

/// The timing division of a file's header.
#[derive(Clone, Copy, Debug, PartialEq, Eq)]
pub enum Division {
    /// Ticks per quarter note.
    QuarterNote(u16),
    /// Frames per second and ticks per frame.
    Smpte(u8, u8),
}

/// The five bytes of an SMPTE-offset meta event.
#[derive(Clone, Copy, Debug, PartialEq, Eq)]
pub struct SmpteOffsetValue {
    pub hr: u8,
    pub mn: u8,
    pub se: u8,
    pub fr: u8,
    pub ff: u8,
}

/// A decoded event of a track, before classification. Channels are 0-based.
#[derive(Clone, Copy, Debug, PartialEq, Eq)]
pub enum RawEvent {
    NoteOn { channel: u8, note: u8, velocity: u8 },
    NoteOff { channel: u8, note: u8, velocity: u8 },
    ControlChange { channel: u8, controller: u8, value: u8 },
    /// Any other channel message (pitch bend, program change, pressure).
    OtherChannelMessage,
    /// A tempo change, in microseconds per quarter note.
    SetTempo(u32),
    SmpteOffset(SmpteOffsetValue),
    TimeSignature,
    /// Any other meta or system event.
    Other,
}

impl RawEvent {
    /// Channel messages carry a 4-bit channel.
    pub open spec fn valid(self) -> bool {
        match self {
            RawEvent::NoteOn { channel, .. } => channel < 16,
            RawEvent::NoteOff { channel, .. } => channel < 16,
            RawEvent::ControlChange { channel, .. } => channel < 16,
            _ => true,
        }
    }
}

/// An event of a track with the ticks elapsed since the track's previous event.
#[derive(Clone, Copy, Debug, PartialEq, Eq)]
pub struct TrackEvent {
    pub delta_time: u32,
    pub event: RawEvent,
}

/// What the engine reads of a MIDI file: its division and its tracks, in file order.
#[derive(Debug)]
pub struct MidiFile {
    pub division: Division,
    pub tracks: Vec<Vec<TrackEvent>>,
}

/// The events of all tracks, one track after the other.
pub open spec fn concat_tracks(tracks: Seq<Vec<TrackEvent>>) -> Seq<TrackEvent>
    decreases tracks.len(),
{
    if tracks.len() == 0 {
        Seq::empty()
    } else {
        concat_tracks(tracks.drop_last()) + tracks.last()@
    }
}

/// The ticks that a sequence of events spans.
pub open spec fn total_delta(events: Seq<TrackEvent>) -> nat
    decreases events.len(),
{
    if events.len() == 0 {
        0
    } else {
        total_delta(events.drop_last()) + (events.last().delta_time as nat)
    }
}

/// A prefix spans no more ticks than the whole.
pub proof fn lemma_total_delta_prefix(events: Seq<TrackEvent>, i: int)
    requires
        0 <= i <= events.len(),
    ensures
        total_delta(events.take(i)) <= total_delta(events),
    decreases events.len(),
{
    if i < events.len() {
        let d = events.drop_last();
        assert(d.take(i) =~= events.take(i));
        lemma_total_delta_prefix(d, i);
    } else {
        assert(events.take(i) =~= events);
    }
}

/// Flattens the tracks in file order.
pub fn flatten_tracks(tracks: &Vec<Vec<TrackEvent>>) -> (r: Vec<TrackEvent>)
    ensures
        r@ == concat_tracks(tracks@),
{
    let mut out: Vec<TrackEvent> = Vec::new();
    let mut i: usize = 0;
    while i < tracks.len()
        invariant
            0 <= i <= tracks.len(),
            out@ == concat_tracks(tracks@.take(i as int)),
        decreases tracks.len() - i,
    {
        let track = &tracks[i];
        let ghost before = out@;
        let mut j: usize = 0;
        while j < track.len()
            invariant
                0 <= j <= track.len(),
                out@ == before + track@.take(j as int),
            decreases track.len() - j,
        {
            out.push(track[j]);
            assert(track@.take(j as int + 1) =~= track@.take(j as int).push(track@[j as int]));
            j += 1;
        }
        assert(track@.take(j as int) =~= track@);
        assert(tracks@.take(i as int + 1).drop_last() =~= tracks@.take(i as int));
        i += 1;
    }
    assert(tracks@.take(i as int) =~= tracks@);
    out
}

} // verus!
