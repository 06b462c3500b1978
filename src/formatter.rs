use vstd::prelude::*;
use crate::midi_event::{Message, MidiEvent, Timestamp};

verus! {

/// The character of a decimal digit.
pub open spec fn digit_char(d: nat) -> char {
    seq!['0', '1', '2', '3', '4', '5', '6', '7', '8', '9'][(d % 10) as int]
}

/// The decimal digits of `n`, most significant first, without leading zeros.
pub open spec fn digits(n: nat) -> Seq<char>
    decreases n,
{
    if n < 10 {
        seq![digit_char(n)]
    } else {
        digits(n / 10).push(digit_char(n % 10))
    }
}

/// The decimal digits of `n`, left-padded with zeros to at least `width` characters.
pub open spec fn padded_decimal(n: nat, width: nat) -> Seq<char> {
    let d = digits(n);
    if d.len() >= width {
        d
    } else {
        Seq::new((width - d.len()) as nat, |i: int| '0') + d
    }
}

/// Relies on std's `format!` with `{:0width$}` on an unsigned integer: its decimal
/// digits, left-padded with zeros to `width`. std holds a width as a `u16`, so
/// only small widths are admitted.
#[verifier::external_body]
fn decimal(n: u64, width: usize) -> (r: String)
    requires
        width <= 3,
    ensures
        r@ == padded_decimal(n as nat, width as nat),
{
    format!("{:0width$}", n, width = width)
}

/// `MM:SS.mmm` of a timestamp: whole minutes, the seconds within the minute
/// and the milliseconds within the second, all truncated.
pub open spec fn time_text(t: Timestamp) -> Seq<char>
    recommends
        t.wf(),
{
    let ms = t.whole_millis();
    let secs = ms / 1000;
    padded_decimal(secs / 60, 2) + ":"@ + padded_decimal(secs % 60, 2) + "."@ + padded_decimal(
        ms % 1000,
        3,
    )
}

/// The tag and the two payload bytes that a message is written with.
pub open spec fn message_parts(m: Message) -> (Seq<char>, u8, u8) {
    match m {
        Message::NoteOn(note, velocity) => ("N"@, note, velocity),
        Message::NoteOff(note, _) => ("N"@, note, 0),
        Message::ControlChange(num, val) => ("CC"@, num, val),
    }
}

/// `[midi@MM:SS.mmm: <TAG><arg1>.<arg2>@<channel>]`
pub open spec fn stage_traxx_line(e: MidiEvent) -> Seq<char>
    recommends
        e.timestamp.wf(),
{
    let (tag, arg1, arg2) = message_parts(e.message);
    "[midi@"@ + time_text(e.timestamp) + ": "@ + tag + digits(arg1 as nat) + "."@ + digits(
        arg2 as nat,
    ) + "@"@ + digits(e.channel as nat) + "]"@
}

/// Renders one event as a line of text.
pub trait MidiFormatter {
    /// The line that `format` returns for an event.
    spec fn spec_format(&self, event: MidiEvent) -> Seq<char>;

    fn format(&self, event: &MidiEvent) -> (r: String)
        requires
            event.timestamp.wf(),
        ensures
            r@ == self.spec_format(*event),
    ;
}

/// Writes events in the cue-line format of the StageTraxx player.
pub struct StageTraxxFormatter {}

impl StageTraxxFormatter {
    pub fn new() -> (r: Self) {
        StageTraxxFormatter {  }
    }
}

impl MidiFormatter for StageTraxxFormatter {
    open spec fn spec_format(&self, event: MidiEvent) -> Seq<char> {
        stage_traxx_line(event)
    }

    fn format(&self, event: &MidiEvent) -> (r: String) {
        let (msg, arg1, arg2): (&str, u8, u8) = match event.message {
            Message::NoteOn(note, velocity) => ("N", note, velocity),
            Message::NoteOff(note, _) => ("N", note, 0),
            Message::ControlChange(num, val) => ("CC", num, val),
        };
        let time = format_midi_time(event.timestamp);
        let a1 = decimal(arg1 as u64, 0);
        let a2 = decimal(arg2 as u64, 0);
        let ch = decimal(event.channel as u64, 0);
        let mut line = String::from_str("[midi@");
        line.append(time.as_str());
        line.append(": ");
        line.append(msg);
        line.append(a1.as_str());
        line.append(".");
        line.append(a2.as_str());
        line.append("@");
        line.append(ch.as_str());
        line.append("]");
        line
    }
}

/// Writes a timestamp as `MM:SS.mmm`, truncating to whole milliseconds.
pub fn format_midi_time(seconds: Timestamp) -> (r: String)
    requires
        seconds.wf(),
    ensures
        r@ == time_text(seconds),
{
    let millis_den: u64 = (seconds.pulses_per_qn as u64) * 1000;
    let total_millis = seconds.tick_micros / millis_den;
    let whole_secs = total_millis / 1000;
    let minutes = whole_secs / 60;
    let secs = whole_secs % 60;
    let fractional = total_millis % 1000;
    let mut out = decimal(minutes, 2);
    out.append(":");
    let s = decimal(secs, 2);
    out.append(s.as_str());
    out.append(".");
    let f = decimal(fractional, 3);
    out.append(f.as_str());
    out
}

} // verus!
