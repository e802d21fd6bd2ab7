//! The log record value type and the severity scale.

use vstd::prelude::*;

use crate::text::{chars_of, str_eq, string_from_chars};

verus! {

/// One parsed log entry.
///
/// A record is complete when all fields are populated by the accumulator;
/// it is then immutable.
#[derive(Debug, Clone)]
pub struct Log {
    /// Log date, as captured (MM-DD).
    pub date: String,
    /// Log time, as captured (HH:MM:SS.mmm).
    pub time: String,
    /// Log pid, a numeric string as captured.
    pub pid: String,
    /// Log tid, a numeric string as captured.
    pub tid: String,
    /// Log level token, e.g. "W".
    pub level: String,
    /// Log tag; may contain '/'.
    pub tag: String,
    /// Log message; may contain internal line breaks.
    pub message: String,
    /// Log buffer: "main", "system", "radio", "events" or "crash".
    pub buffer: String,
}

/// The mathematical value of a record: its fields as character sequences.
pub ghost struct LogV {
    pub date: Seq<char>,
    pub time: Seq<char>,
    pub pid: Seq<char>,
    pub tid: Seq<char>,
    pub level: Seq<char>,
    pub tag: Seq<char>,
    pub message: Seq<char>,
    pub buffer: Seq<char>,
}

impl View for Log {
    type V = LogV;

    open spec fn view(&self) -> LogV {
        LogV {
            date: self.date@,
            time: self.time@,
            pid: self.pid@,
            tid: self.tid@,
            level: self.level@,
            tag: self.tag@,
            message: self.message@,
            buffer: self.buffer@,
        }
    }
}

impl Log {
    /// The record belongs to the main buffer.
    pub fn is_main(&self) -> (r: bool)
        ensures
            r == (self@.buffer == "main"@),
    {
        str_eq(self.buffer.as_str(), "main")
    }

    /// The record belongs to the system buffer.
    pub fn is_system(&self) -> (r: bool)
        ensures
            r == (self@.buffer == "system"@),
    {
        str_eq(self.buffer.as_str(), "system")
    }

    /// The record belongs to the crash buffer.
    pub fn is_crash(&self) -> (r: bool)
        ensures
            r == (self@.buffer == "crash"@),
    {
        str_eq(self.buffer.as_str(), "crash")
    }

    /// The record belongs to the events buffer.
    pub fn is_events(&self) -> (r: bool)
        ensures
            r == (self@.buffer == "events"@),
    {
        str_eq(self.buffer.as_str(), "events")
    }

    /// The record belongs to the radio buffer.
    pub fn is_radio(&self) -> (r: bool)
        ensures
            r == (self@.buffer == "radio"@),
    {
        str_eq(self.buffer.as_str(), "radio")
    }

    /// The one-line rendering of all fields, space separated.
    pub open spec fn spec_display_line(l: LogV) -> Seq<char> {
        l.date + seq![' '] + l.time + seq![' '] + l.pid + seq![' '] + l.tid + seq![' '] + l.level
            + seq![' '] + l.tag + seq![' '] + l.message
    }

    /// Render all fields on one line, space separated.
    pub fn display_line(&self) -> (r: String)
        ensures
            r@ == Log::spec_display_line(self@),
    {
        let mut v = chars_of(self.date.as_str());
        push_field(&mut v, self.time.as_str());
        push_field(&mut v, self.pid.as_str());
        push_field(&mut v, self.tid.as_str());
        push_field(&mut v, self.level.as_str());
        push_field(&mut v, self.tag.as_str());
        push_field(&mut v, self.message.as_str());
        string_from_chars(&v)
    }
}

/// Append a space and then the characters of `s` to `dst`.
fn push_field(dst: &mut Vec<char>, s: &str)
    ensures
        final(dst)@ == old(dst)@ + seq![' '] + s@,
{
    dst.push(' ');
    let n = s.unicode_len();
    let mut i: usize = 0;
    while i < n
        invariant
            n == s@.len(),
            0 <= i <= n,
            dst@ == old(dst)@ + seq![' '] + s@.subrange(0, i as int),
        decreases n - i,
    {
        dst.push(s.get_char(i));
        proof {
            assert(old(dst)@ + seq![' '] + s@.subrange(0, i as int) + seq![s@[i as int]] =~= old(
                dst,
            )@ + seq![' '] + s@.subrange(0, i + 1 as int));
        }
        i += 1;
    }
    proof {
        assert(s@.subrange(0, n as int) =~= s@);
    }
}

/// Log severity, totally ordered from Verbose to Silent.
///
/// An unrecognized level token maps to Silent, the maximal severity, so that
/// malformed headers are filtered out rather than always shown.
#[derive(Copy, Clone, PartialEq, Eq, Structural, Debug)]
pub enum Level {
    /// Verbose
    V,
    /// Debug
    D,
    /// Info
    I,
    /// Warning
    W,
    /// Error
    E,
    /// Fatal
    F,
    /// Silent
    S,
}

/// The rank of a severity on the Verbose < .. < Silent scale.
pub open spec fn sev(l: Level) -> nat {
    match l {
        Level::V => 1,
        Level::D => 2,
        Level::I => 3,
        Level::W => 4,
        Level::E => 5,
        Level::F => 6,
        Level::S => 7,
    }
}

/// The severity named by a level token: one of the seven single-letter
/// tokens, and Silent for anything else.
pub open spec fn spec_level_of(s: Seq<char>) -> Level {
    if s == "V"@ {
        Level::V
    } else if s == "D"@ {
        Level::D
    } else if s == "I"@ {
        Level::I
    } else if s == "W"@ {
        Level::W
    } else if s == "E"@ {
        Level::E
    } else if s == "F"@ {
        Level::F
    } else {
        Level::S
    }
}

impl Level {
    /// Parse a level token; an unrecognized token gives Silent.
    pub fn from_token(s: &str) -> (r: Level)
        ensures
            r == spec_level_of(s@),
    {
        if str_eq(s, "V") {
            Level::V
        } else if str_eq(s, "D") {
            Level::D
        } else if str_eq(s, "I") {
            Level::I
        } else if str_eq(s, "W") {
            Level::W
        } else if str_eq(s, "E") {
            Level::E
        } else if str_eq(s, "F") {
            Level::F
        } else {
            Level::S
        }
    }

    /// The numeric rank of this severity.
    pub fn value(self) -> (r: u8)
        ensures
            r as nat == sev(self),
    {
        match self {
            Level::V => 1,
            Level::D => 2,
            Level::I => 3,
            Level::W => 4,
            Level::E => 5,
            Level::F => 6,
            Level::S => 7,
        }
    }
}

impl From<Level> for u8 {
    fn from(value: Level) -> (r: u8) {
        value.value()
    }
}

impl vstd::std_specs::convert::FromSpecImpl<Level> for u8 {
    open spec fn obeys_from_spec() -> bool {
        true
    }

    open spec fn from_spec(value: Level) -> u8 {
        sev(value) as u8
    }
}

} // verus!
