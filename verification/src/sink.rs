//! Rendering of accepted records: the terminal sink's line layout and the
//! file sink's fixed-format line.
//!
//! A message with embedded line breaks is rendered one terminal line per
//! message line: the first with a full header (time, pid-tid, truncated tag,
//! severity badge), the rest with a blank aligned header. When color is
//! enabled the tag, badge and message are painted with a fixed severity
//! palette; when disabled no color is applied at all. Painted text depends
//! on the environment, so the colored contracts fix the column layout and
//! say of each painted segment that it still carries its uncolored text.

use std::io::Write;

use vstd::prelude::*;

use colored::Colorize;

use crate::log::{Log, LogV};
use crate::text::{
    chars_of, contains_sub, lemma_contains_trans, push_str_chars, split_char, split_chars, str_eq,
    string_from_chars, string_views, sub_chars, views,
};

verus! {

/// A destination that renders and emits accepted records.
pub trait Sink {
    fn write(&self, log: Log);
}

/// A run of `n` spaces.
pub open spec fn spaces(n: nat) -> Seq<char>
    decreases n,
{
    if n == 0 {
        Seq::empty()
    } else {
        spaces((n - 1) as nat).push(' ')
    }
}

proof fn lemma_spaces_len(n: nat)
    ensures
        spaces(n).len() == n,
    decreases n,
{
    if n > 0 {
        lemma_spaces_len((n - 1) as nat);
    }
}

/// `s` left-aligned in a field of minimum width `w`.
pub open spec fn pad_min_left(s: Seq<char>, w: nat) -> Seq<char> {
    if s.len() >= w {
        s
    } else {
        s + spaces((w - s.len()) as nat)
    }
}

/// `s` right-aligned in a field of minimum width `w`.
pub open spec fn pad_min_right(s: Seq<char>, w: nat) -> Seq<char> {
    if s.len() >= w {
        s
    } else {
        spaces((w - s.len()) as nat) + s
    }
}

/// `s` centered in a field of minimum width `w`; an odd remainder leaves
/// the extra space on the right.
pub open spec fn pad_center(s: Seq<char>, w: nat) -> Seq<char> {
    if s.len() >= w {
        s
    } else {
        let d = (w - s.len()) as nat;
        spaces(d / 2) + s + spaces((d - d / 2) as nat)
    }
}

/// A centered field still carries its text contiguously.
proof fn lemma_pad_center_contains(s: Seq<char>, w: nat)
    ensures
        contains_sub(pad_center(s, w), s),
{
    if s.len() >= w {
        assert(pad_center(s, w).subrange(0, 0 + s.len() as int) =~= s);
    } else {
        let d = (w - s.len()) as nat;
        lemma_spaces_len(d / 2);
        lemma_spaces_len((d - d / 2) as nat);
        let i = (d / 2) as int;
        assert(pad_center(s, w).subrange(i, i + s.len() as int) =~= s);
    }
    assert(contains_sub(pad_center(s, w), s));
}

/// `s` cut to at most `w` characters.
pub open spec fn truncate_to(s: Seq<char>, w: nat) -> Seq<char> {
    if s.len() > w {
        s.subrange(0, w as int)
    } else {
        s
    }
}

/// Append `n` spaces to `dst`.
fn push_spaces(dst: &mut Vec<char>, n: usize)
    ensures
        final(dst)@ == old(dst)@ + spaces(n as nat),
{
    let mut i: usize = 0;
    while i < n
        invariant
            0 <= i <= n,
            dst@ == old(dst)@ + spaces(i as nat),
        decreases n - i,
    {
        dst.push(' ');
        i += 1;
    }
}

/// Append `s` left-aligned in a field of minimum width `w`.
fn push_pad_left(dst: &mut Vec<char>, s: &str, w: usize)
    ensures
        final(dst)@ == old(dst)@ + pad_min_left(s@, w as nat),
{
    let n = s.unicode_len();
    push_str_chars(dst, s);
    if n < w {
        push_spaces(dst, w - n);
        proof {
            assert(old(dst)@ + s@ + spaces((w - n) as nat) =~= old(dst)@ + (s@ + spaces(
                (w - n) as nat,
            )));
        }
    }
}

/// Append `s` right-aligned in a field of minimum width `w`.
fn push_pad_right(dst: &mut Vec<char>, s: &str, w: usize)
    ensures
        final(dst)@ == old(dst)@ + pad_min_right(s@, w as nat),
{
    let n = s.unicode_len();
    if n < w {
        push_spaces(dst, w - n);
        push_str_chars(dst, s);
        proof {
            assert(old(dst)@ + spaces((w - n) as nat) + s@ =~= old(dst)@ + (spaces((w - n) as nat)
                + s@));
        }
    } else {
        push_str_chars(dst, s);
    }
}

/// Append `s` centered in a field of minimum width `w`.
fn push_pad_center(dst: &mut Vec<char>, s: &str, w: usize)
    ensures
        final(dst)@ == old(dst)@ + pad_center(s@, w as nat),
{
    let n = s.unicode_len();
    if n < w {
        let d = w - n;
        push_spaces(dst, d / 2);
        push_str_chars(dst, s);
        push_spaces(dst, d - d / 2);
        proof {
            assert(old(dst)@ + spaces((d / 2) as nat) + s@ + spaces((d - d / 2) as nat) =~= old(
                dst,
            )@ + (spaces((d / 2) as nat) + s@ + spaces((d - d / 2) as nat)));
        }
    } else {
        push_str_chars(dst, s);
    }
}

/// The single fixed-format line the file sink writes for a record.
pub open spec fn spec_file_line(l: LogV) -> Seq<char> {
    l.date + seq![' '] + pad_min_left(l.time, 11) + seq![' '] + pad_min_right(l.pid, 5) + seq![' ']
        + pad_min_left(l.tid, 5) + seq![' '] + l.level + seq![' '] + l.tag + seq![' ', ' ', ' ']
        + l.message + seq!['\n']
}

/// Render the fixed-format file line for a record: all fields space or
/// column padded, no color, ending in a newline.
pub fn file_line(log: &Log) -> (r: String)
    ensures
        r@ == spec_file_line(log@),
{
    let mut v: Vec<char> = Vec::new();
    push_str_chars(&mut v, log.date.as_str());
    v.push(' ');
    push_pad_left(&mut v, log.time.as_str(), 11);
    v.push(' ');
    push_pad_right(&mut v, log.pid.as_str(), 5);
    v.push(' ');
    push_pad_left(&mut v, log.tid.as_str(), 5);
    v.push(' ');
    push_str_chars(&mut v, log.level.as_str());
    v.push(' ');
    push_str_chars(&mut v, log.tag.as_str());
    v.push(' ');
    v.push(' ');
    v.push(' ');
    push_str_chars(&mut v, log.message.as_str());
    v.push('\n');
    proof {
        assert(v@ =~= spec_file_line(log@));
    }
    string_from_chars(&v)
}

/// The fixed severity palette: the (red, green, blue) triple for a level
/// token. Verbose is white, debug light blue, info green, warning orange,
/// error and fatal red; anything else renders as verbose does.
pub open spec fn spec_color_of(level: Seq<char>) -> (u8, u8, u8) {
    if level == "D"@ {
        (95, 175, 255)
    } else if level == "I"@ {
        (5, 215, 2)
    } else if level == "W"@ {
        (215, 95, 2)
    } else if level == "E"@ || level == "F"@ {
        (255, 38, 0)
    } else {
        (255, 255, 255)
    }
}

/// The palette entry for a level token.
pub fn color_of_level(level: &str) -> (r: (u8, u8, u8))
    ensures
        r == spec_color_of(level@),
{
    if str_eq(level, "D") {
        (95, 175, 255)
    } else if str_eq(level, "I") {
        (5, 215, 2)
    } else if str_eq(level, "W") {
        (215, 95, 2)
    } else if str_eq(level, "E") || str_eq(level, "F") {
        (255, 38, 0)
    } else {
        (255, 255, 255)
    }
}

/// No escape character occurs in `s`, so coloring cannot rewrite any part
/// of it.
pub open spec fn no_escape(s: Seq<char>) -> bool {
    forall|i: int| 0 <= i < s.len() ==> s[i] != '\u{1b}'
}

/// Relies on colored's `Colorize::truecolor` and the `Display` of the
/// colored string: the rendered text is the input unchanged (when the
/// environment disables color), or the input — with inner reset sequences
/// re-styled — between a style prefix and a reset suffix. An input without
/// an escape character therefore occurs in the result contiguously.
#[verifier::external_body]
fn paint(s: &str, red: u8, green: u8, blue: u8) -> (r: String)
    ensures
        no_escape(s@) ==> contains_sub(r@, s@),
{
    format!("{}", s.truecolor(red, green, blue))
}

/// Relies on colored's `Colorize::on_truecolor` and the `Display` of the
/// colored string, exactly as `paint` does: an input without an escape
/// character occurs in the result contiguously.
#[verifier::external_body]
fn paint_bg(s: &str, red: u8, green: u8, blue: u8) -> (r: String)
    ensures
        no_escape(s@) ==> contains_sub(r@, s@),
{
    format!("{}", s.on_truecolor(red, green, blue))
}

/// Relies on std's `writeln!` to standard output: prints the string and a
/// newline.
#[verifier::external_body]
fn emit_line(s: &str) {
    let _ = writeln!(std::io::stdout(), "{}", s);
}

/// The column layout of a first terminal line, with the tag, badge and
/// message slots as given: time, pid-tid, the tag slot, the badge slot, and
/// the message slot.
pub open spec fn first_line_shape(
    l: LogV,
    tag_seg: Seq<char>,
    badge_seg: Seq<char>,
    msg_seg: Seq<char>,
) -> Seq<char> {
    pad_min_left(l.time, 11) + seq![' '] + pad_min_right(l.pid, 5) + seq!['-'] + pad_min_left(
        l.tid,
        5,
    ) + seq![' '] + tag_seg + seq![' '] + badge_seg + seq![' '] + msg_seg
}

/// The column layout of a subsequent terminal line: a blank header of the
/// same column widths, then the badge slot and the message slot.
pub open spec fn rest_line_shape(w: nat, badge_seg: Seq<char>, msg_seg: Seq<char>) -> Seq<char> {
    spaces(12) + seq![' '] + spaces(5) + seq!['-'] + spaces(5) + seq![' '] + pad_min_left(
        seq![' '],
        w,
    ) + seq![' '] + badge_seg + seq![' '] + msg_seg
}

/// The first terminal line of a record, uncolored: the tag slot holds the
/// truncated tag padded to the display width, the badge is the level between
/// spaces, the message slot the first message line.
pub open spec fn spec_terminal_first_line(w: nat, l: LogV, msg: Seq<char>) -> Seq<char> {
    first_line_shape(l, pad_min_left(truncate_to(l.tag, w), w), seq![' '] + l.level + seq![' '], msg)
}

/// A subsequent terminal line of a record, uncolored: the badge is the level
/// centered on three columns.
pub open spec fn spec_terminal_rest_line(w: nat, l: LogV, msg: Seq<char>) -> Seq<char> {
    rest_line_shape(w, pad_center(l.level, 3), msg)
}

/// All terminal lines of a record, uncolored: one per message line.
pub open spec fn spec_terminal_lines(w: nat, l: LogV) -> Seq<Seq<char>> {
    let msgs = split_char(l.message, '\n');
    Seq::new(
        msgs.len(),
        |i: int|
            if i == 0 {
                spec_terminal_first_line(w, l, msgs[0])
            } else {
                spec_terminal_rest_line(w, l, msgs[i])
            },
    )
}

/// What the contract fixes of a colored first line: the full column layout,
/// with some tag, badge and message segments in the three slots; the tag
/// segment still carries the truncated padded tag, and the message segment
/// its message line, whenever that text holds no escape character.
pub open spec fn colored_first_line_ok(w: nat, l: LogV, msg: Seq<char>, line: Seq<char>) -> bool {
    exists|t: Seq<char>, b: Seq<char>, m: Seq<char>|
        line == #[trigger] first_line_shape(l, t, b, m) && (no_escape(
            pad_min_left(truncate_to(l.tag, w), w),
        ) ==> contains_sub(t, pad_min_left(truncate_to(l.tag, w), w))) && (no_escape(msg)
            ==> contains_sub(m, msg))
}

/// What the contract fixes of a colored subsequent line: the blank aligned
/// header, then some badge and message segments; the badge segment still
/// carries the level token, and the message segment its message line,
/// whenever that text holds no escape character.
pub open spec fn colored_rest_line_ok(w: nat, l: LogV, msg: Seq<char>, line: Seq<char>) -> bool {
    exists|b: Seq<char>, m: Seq<char>|
        line == #[trigger] rest_line_shape(w, b, m) && (no_escape(l.level) ==> contains_sub(
            b,
            l.level,
        )) && (no_escape(msg) ==> contains_sub(m, msg))
}

/// Assemble a first terminal line from its three rendered segments.
fn assemble_first(log: &Log, tag_seg: &String, badge_seg: &String, msg_seg: &String) -> (r: String)
    ensures
        r@ == first_line_shape(log@, tag_seg@, badge_seg@, msg_seg@),
{
    let mut v: Vec<char> = Vec::new();
    push_pad_left(&mut v, log.time.as_str(), 11);
    v.push(' ');
    push_pad_right(&mut v, log.pid.as_str(), 5);
    v.push('-');
    push_pad_left(&mut v, log.tid.as_str(), 5);
    v.push(' ');
    push_str_chars(&mut v, tag_seg.as_str());
    v.push(' ');
    push_str_chars(&mut v, badge_seg.as_str());
    v.push(' ');
    push_str_chars(&mut v, msg_seg.as_str());
    proof {
        assert(v@ =~= first_line_shape(log@, tag_seg@, badge_seg@, msg_seg@));
    }
    string_from_chars(&v)
}

/// Assemble a subsequent terminal line from its two rendered segments.
fn assemble_rest(w: usize, badge_seg: &String, msg_seg: &String) -> (r: String)
    ensures
        r@ == rest_line_shape(w as nat, badge_seg@, msg_seg@),
{
    let mut v: Vec<char> = Vec::new();
    push_spaces(&mut v, 12);
    v.push(' ');
    push_spaces(&mut v, 5);
    v.push('-');
    push_spaces(&mut v, 5);
    v.push(' ');
    push_pad_left(&mut v, " ", w);
    v.push(' ');
    push_str_chars(&mut v, badge_seg.as_str());
    v.push(' ');
    push_str_chars(&mut v, msg_seg.as_str());
    proof {
        reveal_strlit(" ");
        assert(" "@ =~= seq![' ']);
        assert(v@ =~= rest_line_shape(w as nat, badge_seg@, msg_seg@));
    }
    string_from_chars(&v)
}

/// Renders records to the terminal, with the tag truncated to a configured
/// width and an optional severity color scheme.
pub struct TerminalSink {
    color: bool,
    tag_width: usize,
}

impl View for TerminalSink {
    type V = (bool, nat);

    closed spec fn view(&self) -> (bool, nat) {
        (self.color, self.tag_width as nat)
    }
}

impl TerminalSink {
    /// A terminal sink; color mode "always" or "auto" enables color, any
    /// other mode disables it.
    pub fn new(color: String, tag_width: usize) -> (r: Self)
        ensures
            r@ == ((color@ == "always"@ || color@ == "auto"@), tag_width as nat),
    {
        let on = str_eq(color.as_str(), "always") || str_eq(color.as_str(), "auto");
        Self { color: on, tag_width }
    }

    /// Render a record into its terminal lines, one per message line. When
    /// color is disabled the lines are exactly the uncolored layout; when it
    /// is enabled every line keeps the full column layout, with the tag,
    /// badge and message slots painted.
    pub fn render(&self, log: &Log) -> (lines: Vec<String>)
        ensures
            lines@.len() == split_char(log@.message, '\n').len(),
            !self@.0 ==> string_views(lines@) == spec_terminal_lines(self@.1, log@),
            self@.0 ==> ({
                let msgs = split_char(log@.message, '\n');
                forall|i: int|
                    0 <= i < lines@.len() ==> (if i == 0 {
                        colored_first_line_ok(self@.1, log@, msgs[0], #[trigger] lines@[i]@)
                    } else {
                        colored_rest_line_ok(self@.1, log@, msgs[i], lines@[i]@)
                    })
            }),
    {
        let msgv = chars_of(log.message.as_str());
        let msgs = split_chars(&msgv, '\n');
        let tagv = chars_of(log.tag.as_str());
        let tagt = if tagv.len() > self.tag_width {
            sub_chars(&tagv, 0, self.tag_width)
        } else {
            tagv
        };
        let tag_s = string_from_chars(&tagt);
        let n = msgs.len();
        let mut lines: Vec<String> = Vec::new();
        let mut i: usize = 0;
        while i < n
            invariant
                n == msgs@.len(),
                views(msgs@) == split_char(log@.message, '\n'),
                tag_s@ == truncate_to(log@.tag, self@.1),
                0 <= i <= n,
                lines@.len() == i,
                !self.color ==> forall|j: int|
                    0 <= j < i ==> #[trigger] lines@[j]@ == spec_terminal_lines(
                        self@.1,
                        log@,
                    )[j],
                self.color ==> forall|j: int|
                    0 <= j < i ==> (if j == 0 {
                        colored_first_line_ok(
                            self@.1,
                            log@,
                            split_char(log@.message, '\n')[0],
                            #[trigger] lines@[j]@,
                        )
                    } else {
                        colored_rest_line_ok(
                            self@.1,
                            log@,
                            split_char(log@.message, '\n')[j],
                            lines@[j]@,
                        )
                    }),
            decreases n - i,
        {
            proof {
                assert(views(msgs@)[i as int] == msgs@[i as int]@);
            }
            let line = if i == 0 {
                self.first_line(log, &tag_s, &msgs[i])
            } else {
                self.rest_line(log, &msgs[i])
            };
            lines.push(line);
            i += 1;
        }
        proof {
            if !self.color {
                assert(string_views(lines@) =~= spec_terminal_lines(self@.1, log@));
            }
        }
        lines
    }

    /// Build the first terminal line of a record: exactly the uncolored
    /// layout when color is off, the same layout with painted slots when it
    /// is on.
    fn first_line(&self, log: &Log, tag_s: &String, msg: &Vec<char>) -> (r: String)
        requires
            tag_s@ == truncate_to(log@.tag, self@.1),
        ensures
            !self@.0 ==> r@ == spec_terminal_first_line(self@.1, log@, msg@),
            self@.0 ==> colored_first_line_ok(self@.1, log@, msg@, r@),
    {
        let mut padded: Vec<char> = Vec::new();
        push_pad_left(&mut padded, tag_s.as_str(), self.tag_width);
        let padded_tag = string_from_chars(&padded);
        proof {
            assert(padded_tag@ == pad_min_left(truncate_to(log@.tag, self@.1), self@.1));
        }
        let tag_seg: String;
        let badge_seg: String;
        let msg_seg: String;
        if self.color {
            let rgb = color_of_level(log.level.as_str());
            tag_seg = paint(padded_tag.as_str(), rgb.0, rgb.1, rgb.2);
            let painted_level = paint(log.level.as_str(), rgb.0, rgb.1, rgb.2);
            let mut badge: Vec<char> = Vec::new();
            badge.push(' ');
            push_str_chars(&mut badge, painted_level.as_str());
            badge.push(' ');
            badge_seg = paint_bg(string_from_chars(&badge).as_str(), 88, 88, 88);
            msg_seg = paint(string_from_chars(msg).as_str(), rgb.0, rgb.1, rgb.2);
        } else {
            tag_seg = padded_tag;
            let mut badge: Vec<char> = Vec::new();
            badge.push(' ');
            push_str_chars(&mut badge, log.level.as_str());
            badge.push(' ');
            proof {
                assert(badge@ =~= seq![' '] + log@.level + seq![' ']);
            }
            badge_seg = string_from_chars(&badge);
            msg_seg = string_from_chars(msg);
        }
        let r = assemble_first(log, &tag_seg, &badge_seg, &msg_seg);
        proof {
            if self.color {
                assert(colored_first_line_ok(self@.1, log@, msg@, r@)) by {
                    assert(r@ == first_line_shape(log@, tag_seg@, badge_seg@, msg_seg@));
                }
            }
        }
        r
    }

    /// Build a subsequent terminal line of a record: exactly the uncolored
    /// layout when color is off, the same layout with painted slots when it
    /// is on.
    fn rest_line(&self, log: &Log, msg: &Vec<char>) -> (r: String)
        ensures
            !self@.0 ==> r@ == spec_terminal_rest_line(self@.1, log@, msg@),
            self@.0 ==> colored_rest_line_ok(self@.1, log@, msg@, r@),
    {
        let badge_seg: String;
        let msg_seg: String;
        if self.color {
            let painted_level = paint_bg(log.level.as_str(), 88, 88, 88);
            let mut badge: Vec<char> = Vec::new();
            push_pad_center(&mut badge, painted_level.as_str(), 3);
            badge_seg = string_from_chars(&badge);
            proof {
                if no_escape(log@.level) {
                    lemma_pad_center_contains(painted_level@, 3);
                    lemma_contains_trans(badge_seg@, painted_level@, log@.level);
                }
            }
            let rgb = color_of_level(log.level.as_str());
            msg_seg = paint(string_from_chars(msg).as_str(), rgb.0, rgb.1, rgb.2);
        } else {
            let mut badge: Vec<char> = Vec::new();
            push_pad_center(&mut badge, log.level.as_str(), 3);
            badge_seg = string_from_chars(&badge);
            msg_seg = string_from_chars(msg);
        }
        let r = assemble_rest(self.tag_width, &badge_seg, &msg_seg);
        proof {
            if self.color {
                assert(colored_rest_line_ok(self@.1, log@, msg@, r@)) by {
                    assert(r@ == rest_line_shape(self@.1, badge_seg@, msg_seg@));
                }
            }
        }
        r
    }
}

impl Sink for TerminalSink {
    fn write(&self, log: Log) {
        let lines = self.render(&log);
        let n = lines.len();
        let mut i: usize = 0;
        while i < n
            invariant
                n == lines@.len(),
                0 <= i <= n,
            decreases n - i,
        {
            emit_line(lines[i].as_str());
            i += 1;
        }
    }
}

} // verus!
