use vstd::prelude::*;
use crate::error::ExtractError;
use crate::midi_event::{Message, MidiEvent, Timestamp};
use crate::smpte::{extract_frame_rate_hrs, frame_code_of, hour_of, rate_of_code};
use crate::source::{
    concat_tracks, flatten_tracks, lemma_total_delta_prefix, total_delta, Division, MidiFile,
    RawEvent, SmpteOffsetValue, TrackEvent,
};

verus! {

/// Microseconds per second.
pub const MICROS_PER_SEC: u32 = 1_000_000;

/// The tempo assumed before a track sets one, in beats per minute.
pub const DEFAULT_BPM: u32 = 120;

/// The abstract state of the timing engine.
///
/// Time is counted in tick-microseconds: ticks multiplied by the tempo, in
/// microseconds per quarter note, that held over them. Dividing by
/// `pulses_per_qn * 1_000_000` gives seconds.
pub ghost struct EngineState {
    pub pulses_per_qn: u16,
    pub override_channel: Option<u8>,
    /// Ticks since the start of the stream.
    pub ticks: nat,
    /// The tick at which the open tempo segment began.
    pub last_tempo_change_ticks: nat,
    /// The tick-microseconds of all closed tempo segments.
    pub elapsed: nat,
    /// The tempo of the open segment, in microseconds per quarter note.
    pub tempo: nat,
}

/// The 1-based output channel of an event on a 0-based raw channel.
pub open spec fn channel_for(raw_channel: u8, override_channel: Option<u8>) -> u8 {
    match override_channel {
        Some(c) => c,
        None => (raw_channel + 1) as u8,
    }
}

/// The event that a raw event yields at a given time, if it is one of the
/// classified channel messages. A note-off always carries velocity 0.
pub open spec fn classified(event: RawEvent, timestamp: Timestamp, override_channel: Option<u8>) -> Option<MidiEvent> {
    match event {
        RawEvent::NoteOn { channel, note, velocity } => Some(
            MidiEvent {
                timestamp,
                message: Message::NoteOn(note, velocity),
                channel: channel_for(channel, override_channel),
            },
        ),
        RawEvent::NoteOff { channel, note, velocity } => Some(
            MidiEvent {
                timestamp,
                message: Message::NoteOff(note, 0),
                channel: channel_for(channel, override_channel),
            },
        ),
        RawEvent::ControlChange { channel, controller, value } => Some(
            MidiEvent {
                timestamp,
                message: Message::ControlChange(controller, value),
                channel: channel_for(channel, override_channel),
            },
        ),
        _ => None,
    }
}

impl EngineState {
    /// The state before any event, at the default tempo of 120 BPM.
    pub open spec fn start(pulses_per_qn: u16, override_channel: Option<u8>) -> EngineState {
        EngineState {
            pulses_per_qn,
            override_channel,
            ticks: 0,
            last_tempo_change_ticks: 0,
            elapsed: 0,
            tempo: 500_000,
        }
    }

    pub open spec fn wf(self) -> bool {
        &&& self.pulses_per_qn > 0
        &&& self.last_tempo_change_ticks <= self.ticks <= u32::MAX
        &&& self.elapsed <= self.last_tempo_change_ticks * (u32::MAX as nat)
        &&& self.tempo <= u32::MAX
    }

    /// The elapsed time at the current tick, in tick-microseconds.
    pub open spec fn now(self) -> nat {
        self.elapsed + ((self.ticks - self.last_tempo_change_ticks) as nat) * self.tempo
    }

    /// The current tick as a timestamp.
    pub open spec fn timestamp(self) -> Timestamp {
        Timestamp { tick_micros: self.now() as u64, pulses_per_qn: self.pulses_per_qn }
    }

    /// The state once the clock has advanced by a delta-time.
    pub open spec fn advanced(self, delta_time: u32) -> EngineState {
        EngineState { ticks: self.ticks + (delta_time as nat), ..self }
    }

    /// The state after an event: its delta-time always advances the clock, and a
    /// tempo change closes the open segment and opens one at the new tempo.
    pub open spec fn after(self, ev: TrackEvent) -> EngineState {
        let s = self.advanced(ev.delta_time);
        match ev.event {
            RawEvent::SetTempo(t) => EngineState {
                last_tempo_change_ticks: s.ticks,
                elapsed: s.now(),
                tempo: t as nat,
                ..s
            },
            _ => s,
        }
    }

    /// The event emitted for `ev`, stamped at the tick it arrives on.
    pub open spec fn emitted(self, ev: TrackEvent) -> Option<MidiEvent> {
        classified(ev.event, self.advanced(ev.delta_time).timestamp(), self.override_channel)
    }
}

/// The state after a sequence of events.
pub open spec fn final_state(st: EngineState, events: Seq<TrackEvent>) -> EngineState
    decreases events.len(),
{
    if events.len() == 0 {
        st
    } else {
        final_state(st, events.drop_last()).after(events.last())
    }
}

/// The events emitted for a sequence of events, in order.
pub open spec fn emitted_all(st: EngineState, events: Seq<TrackEvent>) -> Seq<MidiEvent>
    decreases events.len(),
{
    if events.len() == 0 {
        Seq::empty()
    } else {
        let prev = final_state(st, events.drop_last());
        let rest = emitted_all(st, events.drop_last());
        match prev.emitted(events.last()) {
            Some(e) => rest.push(e),
            None => rest,
        }
    }
}

/// Every event of a sequence is well formed.
pub open spec fn all_valid(events: Seq<TrackEvent>) -> bool {
    forall|i: int| 0 <= i < events.len() ==> (#[trigger] events[i]).event.valid()
}

/// The elapsed time never exceeds the current tick times the largest tempo.
pub proof fn lemma_now_bound(st: EngineState)
    requires
        st.wf(),
    ensures
        st.now() <= st.ticks * (u32::MAX as nat),
        st.now() <= (u32::MAX as nat) * (u32::MAX as nat),
        st.now() < u64::MAX,
{
    let d = (st.ticks - st.last_tempo_change_ticks) as nat;
    let m = u32::MAX as nat;
    assert(d * st.tempo <= d * m) by (nonlinear_arith)
        requires
            st.tempo <= m,
    ;
    assert(st.last_tempo_change_ticks * m + d * m == st.ticks * m) by (nonlinear_arith)
        requires
            d == st.ticks - st.last_tempo_change_ticks,
    ;
    assert(st.ticks * m <= m * m) by (nonlinear_arith)
        requires
            st.ticks <= m,
    ;
}

/// One event keeps the state well formed and never moves the clock back.
pub proof fn lemma_after(st: EngineState, ev: TrackEvent)
    requires
        st.wf(),
        st.ticks + ev.delta_time <= u32::MAX,
    ensures
        st.after(ev).wf(),
        st.after(ev).ticks == st.ticks + ev.delta_time,
        st.after(ev).pulses_per_qn == st.pulses_per_qn,
        st.after(ev).override_channel == st.override_channel,
        st.now() <= st.advanced(ev.delta_time).now(),
        st.advanced(ev.delta_time).now() == st.after(ev).now(),
        st.advanced(ev.delta_time).wf(),
{
    let s = st.advanced(ev.delta_time);
    let d0 = (st.ticks - st.last_tempo_change_ticks) as nat;
    let d1 = (s.ticks - s.last_tempo_change_ticks) as nat;
    assert(d0 * st.tempo <= d1 * st.tempo) by (nonlinear_arith)
        requires
            d0 <= d1,
    ;
    lemma_now_bound(s);
    if let RawEvent::SetTempo(t) = ev.event {
        let a = st.after(ev);
        assert(((a.ticks - a.last_tempo_change_ticks) as nat) == 0);
        assert(0 * a.tempo == 0) by (nonlinear_arith);
    }
}

/// Along a sequence of events the state stays well formed, its tick is the sum
/// of the delta-times, its clock only moves forward, and every emitted event
/// is stamped at or before the final clock.
pub proof fn lemma_final_state(st: EngineState, events: Seq<TrackEvent>)
    requires
        st.wf(),
        st.ticks + total_delta(events) <= u32::MAX,
    ensures
        final_state(st, events).wf(),
        final_state(st, events).ticks == st.ticks + total_delta(events),
        final_state(st, events).pulses_per_qn == st.pulses_per_qn,
        final_state(st, events).override_channel == st.override_channel,
        st.now() <= final_state(st, events).now(),
        forall|i: int|
            0 <= i < emitted_all(st, events).len() ==> {
                &&& (#[trigger] emitted_all(st, events)[i]).timestamp.tick_micros
                    <= final_state(st, events).now()
                &&& emitted_all(st, events)[i].timestamp.pulses_per_qn == st.pulses_per_qn
            },
    decreases events.len(),
{
    if events.len() > 0 {
        let d = events.drop_last();
        let ev = events.last();
        lemma_final_state(st, d);
        let prev = final_state(st, d);
        lemma_after(prev, ev);
        lemma_now_bound(prev.advanced(ev.delta_time));
    }
}

/// Emitted timestamps never decrease: each event is stamped at or after the
/// one emitted before it.
pub proof fn lemma_timestamps_non_decreasing(st: EngineState, events: Seq<TrackEvent>)
    requires
        st.wf(),
        st.ticks + total_delta(events) <= u32::MAX,
    ensures
        forall|i: int|
            0 <= i < emitted_all(st, events).len() - 1 ==> (#[trigger] emitted_all(
                st,
                events,
            )[i]).timestamp.tick_micros <= emitted_all(st, events)[i + 1].timestamp.tick_micros,
        forall|i: int|
            0 <= i < emitted_all(st, events).len() ==> (#[trigger] emitted_all(
                st,
                events,
            )[i]).timestamp.pulses_per_qn == st.pulses_per_qn,
    decreases events.len(),
{
    lemma_final_state(st, events);
    if events.len() > 0 {
        let d = events.drop_last();
        let ev = events.last();
        lemma_timestamps_non_decreasing(st, d);
        lemma_final_state(st, d);
        let prev = final_state(st, d);
        lemma_after(prev, ev);
        lemma_now_bound(prev.advanced(ev.delta_time));
    }
}

/// Every emitted note-off carries velocity 0, whatever its raw release velocity.
pub proof fn lemma_note_off_velocity_zero(st: EngineState, events: Seq<TrackEvent>)
    ensures
        forall|i: int|
            0 <= i < emitted_all(st, events).len() ==> match (#[trigger] emitted_all(
                st,
                events,
            )[i]).message {
                Message::NoteOff(_, v) => v == 0,
                _ => true,
            },
    decreases events.len(),
{
    if events.len() > 0 {
        lemma_note_off_velocity_zero(st, events.drop_last());
    }
}

/// With an override channel, every emitted event is on that channel.
pub proof fn lemma_override_channel(st: EngineState, events: Seq<TrackEvent>, channel: u8)
    requires
        st.override_channel == Some(channel),
    ensures
        forall|i: int|
            0 <= i < emitted_all(st, events).len() ==> (#[trigger] emitted_all(
                st,
                events,
            )[i]).channel == channel,
    decreases events.len(),
{
    if events.len() > 0 {
        lemma_final_state_keeps_override(st, events.drop_last());
        lemma_override_channel(st, events.drop_last(), channel);
    }
}

proof fn lemma_final_state_keeps_override(st: EngineState, events: Seq<TrackEvent>)
    ensures
        final_state(st, events).override_channel == st.override_channel,
        final_state(st, events).pulses_per_qn == st.pulses_per_qn,
    decreases events.len(),
{
    if events.len() > 0 {
        lemma_final_state_keeps_override(st, events.drop_last());
    }
}

/// The timing and extraction engine over one file.
pub struct Extractor {
    midi_file: MidiFile,
    override_midi_channel: Option<u8>,
    pulses_per_qn: u16,
    ticks: u32,
    last_tempo_change_ticks: u32,
    elapsed_tick_micros: u64,
    current_tempo_micros_per_qn: u32,
}

impl View for Extractor {
    type V = EngineState;

    closed spec fn view(&self) -> EngineState {
        EngineState {
            pulses_per_qn: self.pulses_per_qn,
            override_channel: self.override_midi_channel,
            ticks: self.ticks as nat,
            last_tempo_change_ticks: self.last_tempo_change_ticks as nat,
            elapsed: self.elapsed_tick_micros as nat,
            tempo: self.current_tempo_micros_per_qn as nat,
        }
    }
}

/// The time spanned by `ticks` at a tempo of `tempo` microseconds per quarter note.
pub fn ticks_to_seconds(ticks: u32, pulses_per_qn: u16, tempo: u32) -> (r: Timestamp)
    ensures
        r.tick_micros == (ticks as nat) * (tempo as nat),
        r.pulses_per_qn == pulses_per_qn,
{
    assert((ticks as nat) * (tempo as nat) <= (u32::MAX as nat) * (u32::MAX as nat))
        by (nonlinear_arith)
        requires
            ticks <= u32::MAX,
            tempo <= u32::MAX,
    ;
    Timestamp { tick_micros: (ticks as u64) * (tempo as u64), pulses_per_qn }
}

impl Extractor {
    /// The tracks still held by the engine.
    pub closed spec fn tracks(&self) -> Seq<Vec<TrackEvent>> {
        self.midi_file.tracks@
    }

    /// Sets up the engine at 120 BPM. An SMPTE division is refused.
    pub fn new(midi_file: MidiFile, override_midi_channel: Option<u8>) -> (r: Result<Extractor, ExtractError>)
        requires
            midi_file.division matches Division::QuarterNote(q) ==> q > 0,
        ensures
            match midi_file.division {
                Division::QuarterNote(q) => r matches Ok(e) && e@ == EngineState::start(
                    q,
                    override_midi_channel,
                ) && e.tracks() == midi_file.tracks@,
                Division::Smpte(_, _) => r == Err::<Extractor, ExtractError>(
                    ExtractError::UnsupportedDivision,
                ),
            },
            r matches Ok(e) ==> e@.wf(),
    {
        let pulses_per_qn: u16 = match midi_file.division {
            Division::QuarterNote(qtr) => qtr,
            Division::Smpte(_, _) => {
                return Err(ExtractError::UnsupportedDivision);
            },
        };
        let beats_per_sec: u32 = DEFAULT_BPM / 60;
        assert(beats_per_sec == 2);
        let default_tempo: u32 = MICROS_PER_SEC / beats_per_sec;
        assert(default_tempo == 500_000);
        Ok(Extractor {
            midi_file,
            override_midi_channel,
            pulses_per_qn,
            ticks: 0,
            last_tempo_change_ticks: 0,
            elapsed_tick_micros: 0,
            current_tempo_micros_per_qn: default_tempo,
        })
    }

    /// Processes every track in file order, one after the other, and returns
    /// the emitted events.
    pub fn run(&mut self) -> (r: Result<Vec<MidiEvent>, ExtractError>)
        requires
            old(self)@.wf(),
            old(self)@.ticks + total_delta(concat_tracks(old(self).tracks())) <= u32::MAX,
            all_valid(concat_tracks(old(self).tracks())),
        ensures
            r matches Ok(v) && v@ == emitted_all(old(self)@, concat_tracks(old(self).tracks())),
            r matches Ok(v) ==> forall|i: int|
                0 <= i < v@.len() - 1 ==> (#[trigger] v@[i]).timestamp.tick_micros
                    <= v@[i + 1].timestamp.tick_micros,
            r matches Ok(v) ==> forall|i: int|
                0 <= i < v@.len() ==> (#[trigger] v@[i]).timestamp.pulses_per_qn
                    == old(self)@.pulses_per_qn,
            final(self)@ == final_state(old(self)@, concat_tracks(old(self).tracks())),
            final(self).tracks() == old(self).tracks(),
    {
        let track_events = flatten_tracks(&self.midi_file.tracks);
        let ghost st0 = self@;
        let ghost evs = track_events@;
        let ghost tracks0 = self.tracks();
        let mut results: Vec<MidiEvent> = Vec::new();
        let mut i: usize = 0;
        while i < track_events.len()
            invariant
                0 <= i <= track_events.len(),
                evs == track_events@,
                evs == concat_tracks(tracks0),
                self.tracks() == tracks0,
                st0.wf(),
                st0.ticks + total_delta(evs) <= u32::MAX,
                all_valid(evs),
                self@ == final_state(st0, evs.take(i as int)),
                results@ == emitted_all(st0, evs.take(i as int)),
            decreases track_events.len() - i,
        {
            let ghost pre = evs.take(i as int);
            proof {
                lemma_total_delta_prefix(evs, i as int + 1);
                assert(evs.take(i as int + 1).drop_last() =~= pre);
                lemma_final_state(st0, pre);
                assert(evs.take(i as int + 1).last() == evs[i as int]);
            }
            let emitted = self.process_event(&track_events[i]);
            match emitted {
                Ok(Some(event)) => {
                    results.push(event);
                },
                Ok(None) => {},
                Err(e) => {
                    return Err(e);
                },
            }
            i += 1;
        }
        assert(evs.take(i as int) =~= evs);
        proof {
            lemma_timestamps_non_decreasing(st0, evs);
        }
        Ok(results)
    }

    /// Advances the clock by one event and applies it.
    fn process_event(&mut self, track_event: &TrackEvent) -> (r: Result<Option<MidiEvent>, ExtractError>)
        requires
            old(self)@.wf(),
            old(self)@.ticks + track_event.delta_time <= u32::MAX,
            track_event.event.valid(),
        ensures
            r == Ok::<Option<MidiEvent>, ExtractError>(old(self)@.emitted(*track_event)),
            final(self)@ == old(self)@.after(*track_event),
            final(self).tracks() == old(self).tracks(),
    {
        proof {
            lemma_after(self@, *track_event);
        }
        let dt = track_event.delta_time;
        self.ticks = self.ticks + dt;
        match track_event.event {
            RawEvent::SetTempo(new_tempo) => {
                self.handle_tempo_change(new_tempo);
                Ok(None)
            },
            RawEvent::SmpteOffset(smpte_offset) => {
                match self.handle_smpte_offset(&smpte_offset) {
                    Ok(_) => Ok(None),
                    Err(e) => Err(e),
                }
            },
            RawEvent::TimeSignature | RawEvent::Other => Ok(None),
            _ => {
                let ticks_since_last_tempo_change = self.ticks - self.last_tempo_change_ticks;
                let since = ticks_to_seconds(
                    ticks_since_last_tempo_change,
                    self.pulses_per_qn,
                    self.current_tempo_micros_per_qn,
                );
                proof {
                    lemma_now_bound(self@);
                }
                let timestamp = Timestamp {
                    tick_micros: self.elapsed_tick_micros + since.tick_micros,
                    pulses_per_qn: self.pulses_per_qn,
                };
                Ok(self.handle_midi_msg(&track_event.event, timestamp))
            },
        }
    }

    /// Classifies a channel message.
    fn handle_midi_msg(&self, msg: &RawEvent, timestamp: Timestamp) -> (r: Option<MidiEvent>)
        requires
            msg.valid(),
        ensures
            r == classified(*msg, timestamp, self@.override_channel),
    {
        match *msg {
            RawEvent::NoteOn { channel, note, velocity } => Some(
                self.handle_note(channel, note, velocity, timestamp, true),
            ),
            RawEvent::NoteOff { channel, note, velocity } => Some(
                self.handle_note(channel, note, velocity, timestamp, false),
            ),
            RawEvent::ControlChange { channel, controller, value } => Some(
                self.handle_control_change(channel, controller, value, timestamp),
            ),
            _ => None,
        }
    }

    /// The output channel for a raw 0-based channel.
    fn resolve_channel(&self, channel: u8) -> (r: u8)
        requires
            channel < 16,
        ensures
            r == channel_for(channel, self@.override_channel),
    {
        match self.override_midi_channel {
            Some(c) => c,
            None => channel + 1,
        }
    }

    /// A note event; a note-off drops its release velocity.
    fn handle_note(&self, channel: u8, note: u8, velocity: u8, timestamp: Timestamp, on: bool) -> (r: MidiEvent)
        requires
            channel < 16,
        ensures
            r.timestamp == timestamp,
            r.channel == channel_for(channel, self@.override_channel),
            r.message == (if on {
                Message::NoteOn(note, velocity)
            } else {
                Message::NoteOff(note, 0)
            }),
    {
        let velocity = if on {
            velocity
        } else {
            0
        };
        let message = if on {
            Message::NoteOn(note, velocity)
        } else {
            Message::NoteOff(note, velocity)
        };
        MidiEvent { timestamp, message, channel: self.resolve_channel(channel) }
    }

    /// A control-change event.
    fn handle_control_change(&self, channel: u8, controller: u8, value: u8, timestamp: Timestamp) -> (r: MidiEvent)
        requires
            channel < 16,
        ensures
            r == (MidiEvent {
                timestamp,
                message: Message::ControlChange(controller, value),
                channel: channel_for(channel, self@.override_channel),
            }),
    {
        MidiEvent {
            timestamp,
            message: Message::ControlChange(controller, value),
            channel: self.resolve_channel(channel),
        }
    }

    /// Closes the open tempo segment at the current tick and opens one at the
    /// new tempo.
    fn handle_tempo_change(&mut self, new_tempo_micros_per_qn: u32)
        requires
            old(self)@.wf(),
        ensures
            final(self)@ == (EngineState {
                last_tempo_change_ticks: old(self)@.ticks,
                elapsed: old(self)@.now(),
                tempo: new_tempo_micros_per_qn as nat,
                ..old(self)@
            }),
            final(self).tracks() == old(self).tracks(),
    {
        proof {
            lemma_now_bound(self@);
        }
        let ticks_since_last_tempo_change = self.ticks - self.last_tempo_change_ticks;
        self.last_tempo_change_ticks = self.ticks;
        let segment = ticks_to_seconds(
            ticks_since_last_tempo_change,
            self.pulses_per_qn,
            self.current_tempo_micros_per_qn,
        );
        self.elapsed_tick_micros = self.elapsed_tick_micros + segment.tick_micros;
        self.current_tempo_micros_per_qn = new_tempo_micros_per_qn;
    }

    /// Decodes an SMPTE offset into its frame rate and hour.
    fn handle_smpte_offset(&self, smpte_offset: &SmpteOffsetValue) -> (r: Result<(u32, u8), ExtractError>)
        ensures
            r == Ok::<(u32, u8), ExtractError>(
                (rate_of_code(frame_code_of(smpte_offset.hr)), hour_of(smpte_offset.hr)),
            ),
    {
        extract_frame_rate_hrs(smpte_offset)
    }
}

} // verus!
