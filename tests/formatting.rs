use midi_cues::{
    filter_collisions, format_midi_time, Message, MidiEvent, MidiFormatter, StageTraxxFormatter,
    Timestamp,
};

fn at_micros(micros: u64, message: Message, channel: u8) -> MidiEvent {
    MidiEvent { timestamp: Timestamp::from_micros(micros), message, channel }
}

#[test]
fn note_on_line_is_exact() {
    let f = StageTraxxFormatter::new();
    let e = at_micros(106_704_000, Message::NoteOn(60, 100), 3);
    assert_eq!(f.format(&e), "[midi@01:46.704: N60.100@3]");
}

#[test]
fn note_off_and_control_change_lines() {
    let f = StageTraxxFormatter::new();
    let off = at_micros(46_700_000, Message::NoteOff(61, 55), 12);
    assert_eq!(f.format(&off), "[midi@00:46.700: N61.0@12]");
    let cc = at_micros(46_700_000, Message::ControlChange(1, 62), 4);
    assert_eq!(f.format(&cc), "[midi@00:46.700: CC1.62@4]");
}

#[test]
fn time_is_truncated_not_rounded() {
    assert_eq!(format_midi_time(Timestamp::from_micros(999_999)), "00:00.999");
    // 2.0 s at 480 ticks per quarter note
    assert_eq!(format_midi_time(Timestamp { tick_micros: 960_000_000, pulses_per_qn: 480 }), "00:02.000");
    // one tick short of a second at 120 BPM, 3 ticks per beat
    assert_eq!(format_midi_time(Timestamp { tick_micros: 2_999_999, pulses_per_qn: 3 }), "00:00.999");
}

#[test]
fn minutes_are_not_wrapped() {
    assert_eq!(format_midi_time(Timestamp::from_micros(6_000_000_000)), "100:00.000");
    assert_eq!(format_midi_time(Timestamp::from_micros(0)), "00:00.000");
}

#[test]
fn colliding_note_off_is_dropped() {
    let events = vec![
        at_micros(5_000_000, Message::NoteOff(60, 0), 1),
        at_micros(5_000_000, Message::NoteOn(62, 100), 1),
    ];
    let kept = filter_collisions(&events, true);
    assert_eq!(kept, vec![events[1]]);
    let all = filter_collisions(&events, false);
    assert_eq!(all, events);
}

#[test]
fn collision_needs_note_off_and_same_instant() {
    let events = vec![
        at_micros(1_000_000, Message::NoteOn(60, 100), 1),
        at_micros(1_000_000, Message::NoteOn(61, 100), 1),
        at_micros(2_000_000, Message::NoteOff(60, 0), 1),
        at_micros(2_000_001, Message::NoteOn(62, 100), 1),
        MidiEvent {
            timestamp: Timestamp { tick_micros: 1_920_000_000, pulses_per_qn: 480 },
            message: Message::NoteOff(62, 0),
            channel: 1,
        },
        at_micros(4_000_000, Message::ControlChange(1, 2), 1),
        at_micros(5_000_000, Message::NoteOff(62, 0), 1),
    ];
    let kept = filter_collisions(&events, true);
    let expected = vec![events[0], events[1], events[2], events[3], events[5], events[6]];
    assert_eq!(kept, expected);
}
