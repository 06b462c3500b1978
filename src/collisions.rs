use vstd::prelude::*;
use crate::midi_event::{Message, MidiEvent};

verus! {

/// Whether the event at `i` is a note-off at the same instant as the event after it.
pub open spec fn is_off_collision(events: Seq<MidiEvent>, i: int) -> bool {
    &&& 0 <= i
    &&& i + 1 < events.len()
    &&& events[i].message is NoteOff
    &&& events[i].timestamp.same_instant(events[i + 1].timestamp)
}

/// The first `n` events, less each note-off that collides with its successor
/// when `skip` is set.
pub open spec fn kept_prefix(events: Seq<MidiEvent>, n: nat, skip: bool) -> Seq<MidiEvent>
    decreases n,
{
    if n == 0 {
        Seq::empty()
    } else {
        let rest = kept_prefix(events, (n - 1) as nat, skip);
        if skip && is_off_collision(events, n - 1) {
            rest
        } else {
            rest.push(events[n - 1])
        }
    }
}

/// The events in order; with `skip_off_note_collisions`, a note-off followed by
/// an event at the same instant is dropped.
pub fn filter_collisions(events: &Vec<MidiEvent>, skip_off_note_collisions: bool) -> (r: Vec<MidiEvent>)
    ensures
        r@ == kept_prefix(events@, events@.len(), skip_off_note_collisions),
{
    let mut out: Vec<MidiEvent> = Vec::new();
    let mut i: usize = 0;
    while i < events.len()
        invariant
            0 <= i <= events.len(),
            out@ == kept_prefix(events@, i as nat, skip_off_note_collisions),
        decreases events.len() - i,
    {
        let event = events[i];
        let drop = skip_off_note_collisions && i + 1 < events.len() && match event.message {
            Message::NoteOff(_, _) => true,
            _ => false,
        } && event.timestamp.same_instant_as(&events[i + 1].timestamp);
        if !drop {
            out.push(event);
        }
        i += 1;
    }
    out
}

/// Without the filter every event is kept.
pub proof fn lemma_no_skip_keeps_all(events: Seq<MidiEvent>, n: nat)
    requires
        n <= events.len(),
    ensures
        kept_prefix(events, n, false) == events.take(n as int),
    decreases n,
{
    if n > 0 {
        lemma_no_skip_keeps_all(events, (n - 1) as nat);
        assert(events.take(n as int) =~= events.take(n - 1).push(events[n - 1]));
    } else {
        assert(events.take(0) =~= Seq::<MidiEvent>::empty());
    }
}

} // verus!
