use midi_cues::{
    extract_frame_rate_hrs, flatten_tracks, ticks_to_seconds, Division, ExtractError, Extractor,
    Message, MidiEvent, MidiFile, RawEvent, SmpteFrameSpec, SmpteOffsetValue, Timestamp,
    TrackEvent,
};

fn ev(delta_time: u32, event: RawEvent) -> TrackEvent {
    TrackEvent { delta_time, event }
}

fn note_on(channel: u8, note: u8, velocity: u8) -> RawEvent {
    RawEvent::NoteOn { channel, note, velocity }
}

fn extract(ppqn: u16, tracks: Vec<Vec<TrackEvent>>, ovr: Option<u8>) -> Vec<MidiEvent> {
    let file = MidiFile { division: Division::QuarterNote(ppqn), tracks };
    let mut extractor = Extractor::new(file, ovr).unwrap();
    extractor.run().unwrap()
}

#[test]
fn tempo_segments_add_up() {
    let events = extract(
        480,
        vec![vec![
            ev(0, note_on(0, 60, 100)),
            ev(960, RawEvent::SetTempo(1_000_000)),
            ev(480, note_on(0, 62, 100)),
        ]],
        None,
    );
    assert_eq!(events.len(), 2);
    assert_eq!(events[0].timestamp, Timestamp { tick_micros: 0, pulses_per_qn: 480 });
    // 960/480 * 0.5 s + 480/480 * 1.0 s = 2.0 s
    assert_eq!(events[1].timestamp, Timestamp { tick_micros: 960_000_000, pulses_per_qn: 480 });
    assert!(events[1].timestamp.same_instant_as(&Timestamp::from_micros(2_000_000)));
}

#[test]
fn default_tempo_is_120_bpm() {
    let events = extract(96, vec![vec![ev(96, note_on(0, 60, 1))]], None);
    // one beat at 120 BPM is half a second
    assert!(events[0].timestamp.same_instant_as(&Timestamp::from_micros(500_000)));
}

#[test]
fn timestamps_never_decrease() {
    let events = extract(
        480,
        vec![vec![
            ev(0, note_on(0, 60, 100)),
            ev(100, RawEvent::SetTempo(250_000)),
            ev(0, note_on(0, 61, 100)),
            ev(10, note_on(0, 62, 100)),
            ev(0, RawEvent::SetTempo(2_000_000)),
            ev(0, note_on(0, 63, 100)),
            ev(1, note_on(0, 64, 100)),
            ev(500, RawEvent::SetTempo(400_000)),
            ev(7, note_on(0, 65, 100)),
        ]],
        None,
    );
    assert_eq!(events.len(), 6);
    for pair in events.windows(2) {
        assert!(pair[0].timestamp.tick_micros <= pair[1].timestamp.tick_micros);
    }
}

#[test]
fn note_off_velocity_is_zero() {
    let events = extract(
        480,
        vec![vec![
            ev(0, RawEvent::NoteOff { channel: 2, note: 64, velocity: 90 }),
            ev(0, RawEvent::NoteOff { channel: 2, note: 65, velocity: 0 }),
        ]],
        None,
    );
    assert_eq!(events[0].message, Message::NoteOff(64, 0));
    assert_eq!(events[1].message, Message::NoteOff(65, 0));
}

#[test]
fn override_channel_applies_to_every_event() {
    let mut track = Vec::new();
    for c in 0..16u8 {
        track.push(ev(1, note_on(c, 60, 100)));
        track.push(ev(1, RawEvent::NoteOff { channel: c, note: 60, velocity: 3 }));
        track.push(ev(1, RawEvent::ControlChange { channel: c, controller: 1, value: 2 }));
    }
    let events = extract(480, vec![track], Some(5));
    assert_eq!(events.len(), 48);
    assert!(events.iter().all(|e| e.channel == 5));
}

#[test]
fn channels_are_renumbered_from_one() {
    let events = extract(
        480,
        vec![vec![
            ev(0, note_on(0, 60, 100)),
            ev(0, note_on(15, 60, 100)),
            ev(0, RawEvent::ControlChange { channel: 7, controller: 11, value: 127 }),
        ]],
        None,
    );
    assert_eq!(events[0].channel, 1);
    assert_eq!(events[1].channel, 16);
    assert_eq!(events[2].channel, 8);
    assert_eq!(events[2].message, Message::ControlChange(11, 127));
}

#[test]
fn unclassified_events_still_advance_the_clock() {
    let offset = SmpteOffsetValue { hr: 0b0110_0001, mn: 0, se: 0, fr: 0, ff: 0 };
    let events = extract(
        100,
        vec![vec![
            ev(10, RawEvent::TimeSignature),
            ev(20, RawEvent::OtherChannelMessage),
            ev(30, RawEvent::SmpteOffset(offset)),
            ev(40, RawEvent::Other),
            ev(0, note_on(0, 60, 100)),
        ]],
        None,
    );
    assert_eq!(events.len(), 1);
    assert_eq!(events[0].timestamp.tick_micros, 100 * 500_000);
}

#[test]
fn tracks_are_concatenated_not_merged() {
    let events = extract(
        10,
        vec![vec![ev(10, note_on(0, 60, 100))], vec![ev(0, note_on(1, 61, 100))]],
        None,
    );
    assert_eq!(events.len(), 2);
    assert_eq!(events[0].timestamp.tick_micros, 10 * 500_000);
    assert_eq!(events[1].timestamp.tick_micros, 10 * 500_000);
    assert_eq!(events[1].channel, 2);
}

#[test]
fn smpte_division_is_refused() {
    let file = MidiFile { division: Division::Smpte(25, 40), tracks: vec![] };
    assert!(matches!(Extractor::new(file, None), Err(ExtractError::UnsupportedDivision)));
}

#[test]
fn flatten_keeps_file_order() {
    let tracks = vec![
        vec![ev(1, RawEvent::Other), ev(2, RawEvent::Other)],
        vec![],
        vec![ev(3, RawEvent::TimeSignature)],
    ];
    let flat = flatten_tracks(&tracks);
    let deltas: Vec<u32> = flat.iter().map(|e| e.delta_time).collect();
    assert_eq!(deltas, vec![1, 2, 3]);
}

#[test]
fn ticks_to_seconds_is_exact() {
    let t = ticks_to_seconds(960, 480, 500_000);
    assert_eq!(t, Timestamp { tick_micros: 480_000_000, pulses_per_qn: 480 });
    assert!(t.same_instant_as(&Timestamp::from_micros(1_000_000)));
}

#[test]
fn smpte_offset_decodes_frame_rate_and_hour() {
    let offset = SmpteOffsetValue { hr: 0b01_0_00101, mn: 1, se: 2, fr: 3, ff: 4 };
    assert_eq!(extract_frame_rate_hrs(&offset), Ok((2500, 5)));
    let offset = SmpteOffsetValue { hr: 0b10_1_11111, mn: 0, se: 0, fr: 0, ff: 0 };
    assert_eq!(extract_frame_rate_hrs(&offset), Ok((2997, 31)));
    let offset = SmpteOffsetValue { hr: 0b11_0_00000, mn: 0, se: 0, fr: 0, ff: 0 };
    assert_eq!(extract_frame_rate_hrs(&offset), Ok((3000, 0)));
    let offset = SmpteOffsetValue { hr: 0b00_0_10111, mn: 0, se: 0, fr: 0, ff: 0 };
    assert_eq!(extract_frame_rate_hrs(&offset), Ok((2400, 23)));
}

#[test]
fn frame_rate_codes() {
    assert_eq!(SmpteFrameSpec::from_code(0), Ok(SmpteFrameSpec::F24));
    assert_eq!(SmpteFrameSpec::from_code(1), Ok(SmpteFrameSpec::F25));
    assert_eq!(SmpteFrameSpec::from_code(2), Ok(SmpteFrameSpec::F2997));
    assert_eq!(SmpteFrameSpec::from_code(3), Ok(SmpteFrameSpec::F30));
    assert_eq!(SmpteFrameSpec::from_code(4), Err(ExtractError::InvalidFrameRateCode(4)));
    assert_eq!(SmpteFrameSpec::F2997.frame_rate(), 2997);
    assert_eq!(SmpteFrameSpec::F24.frame_rate(), 2400);
}
