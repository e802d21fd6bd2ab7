//! Line classification and record accumulation.
//!
//! A raw line is a separator (a run of dashes naming the buffer now being
//! read), a header (opening a new record with date, time, pid, tid, level and
//! tag), or a continuation (text appended to the open record's message). The
//! [`Accumulator`] is the state machine that turns classified lines into
//! completed [`Log`] records.

use vstd::prelude::*;

use crate::log::{Log, LogV};
use crate::text::{
    chars_of, clone_string, extend_chars, find_char, find_char_at, is_ws, string_from_chars,
    sub_chars, tokens, tokens_of, trim_end_chars, trim_end_ws, trim_start_chars, trim_start_ws,
    trim_ws, ws_char,
};

verus! {

/// A separator line: it begins with a run of at least nine dashes.
pub open spec fn is_separator(line: Seq<char>) -> bool {
    line.len() >= 9 && forall|i: int| 0 <= i < 9 ==> line[i] == '-'
}

/// Executable separator test.
pub fn is_separator_line(v: &Vec<char>) -> (r: bool)
    ensures
        r == is_separator(v@),
{
    if v.len() < 9 {
        return false;
    }
    let mut i: usize = 0;
    while i < 9
        invariant
            v@.len() >= 9,
            0 <= i <= 9,
            forall|j: int| 0 <= j < i ==> v@[j] == '-',
        decreases 9 - i,
    {
        if v[i] != '-' {
            return false;
        }
        i += 1;
    }
    true
}

/// A decimal digit.
pub open spec fn is_digit(c: char) -> bool {
    '0' <= c && c <= '9'
}

/// Executable digit test.
pub fn digit_char(c: char) -> (r: bool)
    ensures
        r == is_digit(c),
{
    '0' <= c && c <= '9'
}

/// The MM-DD shape of a captured date.
pub open spec fn is_date_shape(s: Seq<char>) -> bool {
    s.len() == 5 && is_digit(s[0]) && is_digit(s[1]) && s[2] == '-' && is_digit(s[3]) && is_digit(
        s[4],
    )
}

/// The HH:MM:SS.mmm shape of a captured time.
pub open spec fn is_time_shape(s: Seq<char>) -> bool {
    s.len() == 12 && is_digit(s[0]) && is_digit(s[1]) && s[2] == ':' && is_digit(s[3]) && is_digit(
        s[4],
    ) && s[5] == ':' && is_digit(s[6]) && is_digit(s[7]) && s[8] == '.' && is_digit(s[9])
        && is_digit(s[10]) && is_digit(s[11])
}

/// The end of the run of characters satisfying `p` that starts at `i`.
pub open spec fn run_end(s: Seq<char>, i: int, p: spec_fn(char) -> bool) -> int
    decreases s.len() - i,
{
    if i < 0 || i >= s.len() || !p(s[i]) {
        i
    } else {
        run_end(s, i + 1, p)
    }
}

proof fn lemma_run_end(s: Seq<char>, p: spec_fn(char) -> bool, i0: int, k: int)
    requires
        0 <= i0 <= k <= s.len(),
        forall|j: int| i0 <= j < k ==> p(s[j]),
        k < s.len() ==> !p(s[k]),
    ensures
        run_end(s, i0, p) == k,
    decreases k - i0,
{
    if i0 < k {
        lemma_run_end(s, p, i0 + 1, k);
    }
}

/// The fields captured from a header line.
pub ghost struct HeaderV {
    pub date: Seq<char>,
    pub time: Seq<char>,
    pub pid: Seq<char>,
    pub tid: Seq<char>,
    pub level: Seq<char>,
    pub tag: Seq<char>,
}

/// The captured fields of a header line, as strings.
pub struct Header {
    pub date: String,
    pub time: String,
    pub pid: String,
    pub tid: String,
    pub level: String,
    pub tag: String,
}

impl View for Header {
    type V = HeaderV;

    open spec fn view(&self) -> HeaderV {
        HeaderV {
            date: self.date@,
            time: self.time@,
            pid: self.pid@,
            tid: self.tid@,
            level: self.level@,
            tag: self.tag@,
        }
    }
}

/// Parse the part of a header line after the "PID:" prefix: optional
/// whitespace, the tid up to the first space, then level and tag split at
/// the first '/'.
pub open spec fn parse_header_rest(
    date: Seq<char>,
    time: Seq<char>,
    pid: Seq<char>,
    rest: Seq<char>,
) -> Option<HeaderV> {
    let content = trim_start_ws(rest);
    match find_char(content, ' ') {
        None => None,
        Some(i) => {
            let tid = trim_ws(content.subrange(0, i));
            let after = content.subrange(i + 1, content.len() as int);
            match find_char(after, '/') {
                None => None,
                Some(j) => Some(
                    HeaderV {
                        date,
                        time,
                        pid,
                        tid,
                        level: after.subrange(0, j),
                        tag: after.subrange(j + 1, after.len() as int),
                    },
                ),
            }
        },
    }
}

/// Parse a line as a header: after trailing whitespace is removed the line
/// must read `[ MM-DD HH:MM:SS.mmm <ws>+ PID: <tid and level/tag> ]`.
/// A line of any other form is not a header.
pub open spec fn parse_header(line: Seq<char>) -> Option<HeaderV> {
    let t = trim_end_ws(line);
    if t.len() >= 22 && t[0] == '[' && t[1] == ' ' && is_date_shape(t.subrange(2, 7)) && is_ws(
        t[7],
    ) && is_time_shape(t.subrange(8, 20)) && t[t.len() - 2] == ' ' && t[t.len() - 1] == ']' {
        let p = run_end(t, 20, |c: char| is_ws(c));
        let q = run_end(t, p, |c: char| is_digit(c));
        if 20 < p && p < q && q <= t.len() - 2 && t[q] == ':' {
            parse_header_rest(
                t.subrange(2, 7),
                t.subrange(8, 20),
                t.subrange(p, q),
                t.subrange(q + 1, t.len() - 2),
            )
        } else {
            None
        }
    } else {
        None
    }
}

/// The view of a parse result.
pub open spec fn header_out(o: Option<Header>) -> Option<HeaderV> {
    match o {
        None => None,
        Some(h) => Some(h@),
    }
}

/// Parse a line as a header.
pub fn parse_header_line(v: &Vec<char>) -> (r: Option<Header>)
    ensures
        header_out(r) == parse_header(v@),
{
    let t = trim_end_chars(v);
    let n = t.len();
    if n < 22 {
        return None;
    }
    if !(t[0] == '[' && t[1] == ' ') {
        return None;
    }
    if !(digit_char(t[2]) && digit_char(t[3]) && t[4] == '-' && digit_char(t[5]) && digit_char(
        t[6],
    )) {
        proof {
            assert(!is_date_shape(t@.subrange(2, 7)));
        }
        return None;
    }
    proof {
        assert(is_date_shape(t@.subrange(2, 7)));
    }
    if !ws_char(t[7]) {
        return None;
    }
    if !(digit_char(t[8]) && digit_char(t[9]) && t[10] == ':' && digit_char(t[11]) && digit_char(
        t[12],
    ) && t[13] == ':' && digit_char(t[14]) && digit_char(t[15]) && t[16] == '.' && digit_char(
        t[17],
    ) && digit_char(t[18]) && digit_char(t[19])) {
        proof {
            assert(!is_time_shape(t@.subrange(8, 20)));
        }
        return None;
    }
    proof {
        assert(is_time_shape(t@.subrange(8, 20)));
    }
    if !(t[n - 2] == ' ' && t[n - 1] == ']') {
        return None;
    }
    let mut p: usize = 20;
    while p < n && ws_char(t[p])
        invariant
            20 <= p <= n,
            n == t@.len(),
            forall|j: int| 20 <= j < p ==> is_ws(t@[j]),
        decreases n - p,
    {
        p += 1;
    }
    proof {
        lemma_run_end(t@, |c: char| is_ws(c), 20, p as int);
    }
    let mut q: usize = p;
    while q < n && digit_char(t[q])
        invariant
            p <= q <= n,
            n == t@.len(),
            forall|j: int| p <= j < q ==> is_digit(t@[j]),
        decreases n - q,
    {
        q += 1;
    }
    proof {
        lemma_run_end(t@, |c: char| is_digit(c), p as int, q as int);
    }
    if !(20 < p && p < q && q <= n - 2 && t[q] == ':') {
        return None;
    }
    let date = sub_chars(&t, 2, 7);
    let time = sub_chars(&t, 8, 20);
    let pid = sub_chars(&t, p, q);
    let rest = sub_chars(&t, q + 1, n - 2);
    let content = trim_start_chars(&rest);
    let clen = content.len();
    let i = match find_char_at(&content, ' ') {
        None => {
            return None;
        },
        Some(i) => i,
    };
    let tid_raw = sub_chars(&content, 0, i);
    let tid_trimmed = trim_end_chars(&tid_raw);
    let tid = trim_start_chars(&tid_trimmed);
    let after = sub_chars(&content, i + 1, clen);
    let j = match find_char_at(&after, '/') {
        None => {
            return None;
        },
        Some(j) => j,
    };
    let level = sub_chars(&after, 0, j);
    let tag = sub_chars(&after, j + 1, after.len());
    Some(
        Header {
            date: string_from_chars(&date),
            time: string_from_chars(&time),
            pid: string_from_chars(&pid),
            tid: string_from_chars(&tid),
            level: string_from_chars(&level),
            tag: string_from_chars(&tag),
        },
    )
}

/// The record under construction: the header fields, the buffer seen when it
/// was opened, the message accumulated so far, and whether any continuation
/// line has been appended yet.
pub ghost struct PendV {
    pub date: Seq<char>,
    pub time: Seq<char>,
    pub pid: Seq<char>,
    pub tid: Seq<char>,
    pub level: Seq<char>,
    pub tag: Seq<char>,
    pub buffer: Seq<char>,
    pub msg: Seq<char>,
    pub has_msg: bool,
}

/// The accumulator state: the buffer named by the last separator (empty if
/// none has been seen), and the record under construction, if any.
pub ghost struct AccV {
    pub buffer: Seq<char>,
    pub cur: Option<PendV>,
}

/// The record emitted when the in-progress record is flushed: its message is
/// the accumulated text with trailing whitespace removed.
pub open spec fn flush_out(cur: Option<PendV>) -> Option<LogV> {
    match cur {
        None => None,
        Some(p) => Some(
            LogV {
                date: p.date,
                time: p.time,
                pid: p.pid,
                tid: p.tid,
                level: p.level,
                tag: p.tag,
                message: trim_end_ws(p.msg),
                buffer: p.buffer,
            },
        ),
    }
}

/// The buffer a separator line names: its fourth whitespace-separated token,
/// or empty if the line has fewer than four tokens.
pub open spec fn sep_buffer(line: Seq<char>) -> Seq<char> {
    let toks = tokens(line);
    if toks.len() >= 4 {
        toks[3]
    } else {
        Seq::empty()
    }
}

/// One transition of the accumulator on a raw line: the new state and the
/// record completed by this line, if any.
///
/// A separator flushes the in-progress record and switches the buffer. A
/// header flushes the in-progress record and opens a new one with an empty
/// message and the current buffer. Any other line is a continuation: its
/// trailing whitespace is removed and it is appended to the open record's
/// message, after a newline if a continuation was appended before; a
/// continuation with no open record is dropped.
pub open spec fn acc_step(st: AccV, line: Seq<char>) -> (AccV, Option<LogV>) {
    if is_separator(line) {
        (AccV { buffer: sep_buffer(line), cur: None }, flush_out(st.cur))
    } else {
        match parse_header(line) {
            Some(h) => (
                AccV {
                    buffer: st.buffer,
                    cur: Some(
                        PendV {
                            date: h.date,
                            time: h.time,
                            pid: h.pid,
                            tid: h.tid,
                            level: h.level,
                            tag: h.tag,
                            buffer: st.buffer,
                            msg: Seq::empty(),
                            has_msg: false,
                        },
                    ),
                },
                flush_out(st.cur),
            ),
            None => match st.cur {
                None => (st, None),
                Some(p) => (
                    AccV {
                        buffer: st.buffer,
                        cur: Some(
                            PendV {
                                date: p.date,
                                time: p.time,
                                pid: p.pid,
                                tid: p.tid,
                                level: p.level,
                                tag: p.tag,
                                buffer: p.buffer,
                                msg: if p.has_msg {
                                    p.msg + seq!['\n'] + trim_end_ws(line)
                                } else {
                                    trim_end_ws(line)
                                },
                                has_msg: true,
                            },
                        ),
                    },
                    None,
                ),
            },
        }
    }
}

/// The accumulator run over a whole sequence of lines: the final state and
/// the records completed along the way, in order.
pub open spec fn acc_run(st: AccV, lines: Seq<Seq<char>>) -> (AccV, Seq<LogV>)
    decreases lines.len(),
{
    if lines.len() == 0 {
        (st, Seq::empty())
    } else {
        let (st1, out1) = acc_step(st, lines.first());
        let (st2, rest) = acc_run(st1, lines.drop_first());
        let emitted = match out1 {
            None => rest,
            Some(l) => seq![l] + rest,
        };
        (st2, emitted)
    }
}

/// The initial accumulator state: no buffer seen, no record open.
pub open spec fn acc_init() -> AccV {
    AccV { buffer: Seq::empty(), cur: None }
}

/// The view of an emitted record.
pub open spec fn log_out(o: Option<Log>) -> Option<LogV> {
    match o {
        None => None,
        Some(l) => Some(l@),
    }
}

struct Pending {
    log: Log,
    has_msg: bool,
}

impl View for Pending {
    type V = PendV;

    closed spec fn view(&self) -> PendV {
        PendV {
            date: self.log.date@,
            time: self.log.time@,
            pid: self.log.pid@,
            tid: self.log.tid@,
            level: self.log.level@,
            tag: self.log.tag@,
            buffer: self.log.buffer@,
            msg: self.log.message@,
            has_msg: self.has_msg,
        }
    }
}

/// The state machine that reconstructs completed records from raw lines.
pub struct Accumulator {
    buffer: String,
    cur: Option<Pending>,
}

impl View for Accumulator {
    type V = AccV;

    closed spec fn view(&self) -> AccV {
        AccV {
            buffer: self.buffer@,
            cur: match self.cur {
                None => None,
                Some(p) => Some(p@),
            },
        }
    }
}

impl Accumulator {
    /// A fresh accumulator: no buffer seen yet, no record open.
    pub fn new() -> (r: Accumulator)
        ensures
            r@ == acc_init(),
    {
        Accumulator { buffer: String::new(), cur: None }
    }

    /// Flush the in-progress record, if any, leaving none open.
    fn flush(&mut self) -> (out: Option<Log>)
        ensures
            final(self)@.buffer == old(self)@.buffer,
            final(self)@.cur is None,
            log_out(out) == flush_out(old(self)@.cur),
    {
        let cur = self.cur.take();
        match cur {
            None => None,
            Some(p) => {
                let msgv = chars_of(p.log.message.as_str());
                let trimmed = trim_end_chars(&msgv);
                let mut log = p.log;
                log.message = string_from_chars(&trimmed);
                Some(log)
            },
        }
    }

    /// Feed one raw line to the accumulator; the completed record, if this
    /// line completes one, is returned.
    pub fn step(&mut self, line: &str) -> (out: Option<Log>)
        ensures
            ({
                let (st2, o2) = acc_step(old(self)@, line@);
                final(self)@ == st2 && log_out(out) == o2
            }),
    {
        let v = chars_of(line);
        if is_separator_line(&v) {
            let out = self.flush();
            let toks = tokens_of(&v);
            if toks.len() >= 4 {
                proof {
                    assert(toks@.map_values(|x: Vec<char>| x@)[3] == toks@[3]@);
                }
                self.buffer = string_from_chars(&toks[3]);
            } else {
                self.buffer = String::new();
            }
            out
        } else {
            match parse_header_line(&v) {
                Some(h) => {
                    let out = self.flush();
                    let buffer = clone_string(&self.buffer);
                    self.cur = Some(
                        Pending {
                            log: Log {
                                date: h.date,
                                time: h.time,
                                pid: h.pid,
                                tid: h.tid,
                                level: h.level,
                                tag: h.tag,
                                message: String::new(),
                                buffer,
                            },
                            has_msg: false,
                        },
                    );
                    out
                },
                None => {
                    let cur = self.cur.take();
                    match cur {
                        None => None,
                        Some(p) => {
                            let trimmed = trim_end_chars(&v);
                            let mut p = p;
                            let new_msg = if p.has_msg {
                                let mut m = chars_of(p.log.message.as_str());
                                m.push('\n');
                                extend_chars(&mut m, &trimmed);
                                proof {
                                    assert(m@ =~= p.log.message@ + seq!['\n'] + trim_end_ws(v@));
                                }
                                m
                            } else {
                                trimmed
                            };
                            p.log.message = string_from_chars(&new_msg);
                            p.has_msg = true;
                            self.cur = Some(p);
                            None
                        },
                    }
                },
            }
        }
    }

    /// Flush at end of stream: the record still open when the input ends is
    /// completed rather than lost.
    pub fn finish(self) -> (out: Option<Log>)
        ensures
            log_out(out) == flush_out(self@.cur),
    {
        let mut this = self;
        this.flush()
    }
}

} // verus!
