//! The process-id tracker and its filter.
//!
//! The tracker keeps a live set of pid strings of interest. It is seeded once
//! from a process-table snapshot (each line's 2nd whitespace token is a pid,
//! its 9th a process name), and updated from the record stream itself: an
//! `am_proc_start` record whose payload names a matching process adds its
//! pid, an `am_proc_died` record removes its pid after the decision about
//! that record, so the death event itself is still visible.
//!
//! The tracked set is held in a concurrent set so that it stays safe to
//! share if the pipeline is ever parallelized.

use vstd::prelude::*;

use crate::filter::Filter;
use crate::log::{Log, LogV};
use crate::text::{
    chars_of, contains_chars, contains_sub, split_char, split_chars, str_eq, string_from_chars,
    string_views, sub_chars, tokens, tokens_of,
};

verus! {

/// Declares dashmap's `DashSet` so that the tracked-pid set can be held in a
/// field; its contents are only reached through the functions below.
#[verifier::external_type_specification]
#[verifier::external_body]
#[verifier::reject_recursive_types(K)]
#[verifier::reject_recursive_types(S)]
pub struct ExDashSet<K, S>(dashmap::DashSet<K, S>);

/// The contents of a tracked-pid set, as a set of character sequences.
pub uninterp spec fn pid_set_view(s: dashmap::DashSet<String>) -> Set<Seq<char>>;

/// Relies on dashmap's `DashSet::new`: a fresh set is empty.
#[verifier::external_body]
fn pid_set_new() -> (r: dashmap::DashSet<String>)
    ensures
        pid_set_view(r) == Set::<Seq<char>>::empty(),
{
    dashmap::DashSet::new()
}

/// Relies on dashmap's `DashSet::insert`: afterwards the set holds the given
/// key together with everything it held before.
#[verifier::external_body]
fn pid_set_insert(s: &mut dashmap::DashSet<String>, v: String)
    ensures
        pid_set_view(*final(s)) == pid_set_view(*old(s)).insert(v@),
{
    s.insert(v);
}

/// Relies on dashmap's `DashSet::remove`: afterwards the set no longer holds
/// the given key, and everything else it held stays.
#[verifier::external_body]
fn pid_set_remove(s: &mut dashmap::DashSet<String>, v: &String)
    ensures
        pid_set_view(*final(s)) == pid_set_view(*old(s)).remove(v@),
{
    s.remove(v);
}

/// Relies on dashmap's `DashSet::contains`, which compares keys by `String`
/// equality.
#[verifier::external_body]
fn pid_set_contains(s: &dashmap::DashSet<String>, v: &String) -> (r: bool)
    ensures
        r == pid_set_view(*s).contains(v@),
{
    s.contains(v)
}

/// Relies on dashmap's `DashSet::iter`: without concurrent writers it visits
/// exactly the elements the set holds, each once, in unspecified order.
#[verifier::external_body]
fn pid_set_items(s: &dashmap::DashSet<String>) -> (r: Vec<String>)
    ensures
        string_views(r@).to_set() == pid_set_view(*s),
{
    s.iter().map(|x| x.key().clone()).collect()
}

/// The comma-separated fields of a bracketed lifecycle payload: the message
/// with its first and last character removed, split at every comma.
pub open spec fn payload_fields(msg: Seq<char>) -> Seq<Seq<char>> {
    split_char(msg.subrange(1, msg.len() - 1), ',')
}

/// The pid (field 1) and process name (field 3) carried by a process-start
/// payload, when the message is long enough to carry them.
pub open spec fn start_event(msg: Seq<char>) -> Option<(Seq<char>, Seq<char>)> {
    if msg.len() >= 2 {
        let fields = payload_fields(msg);
        if fields.len() >= 4 {
            Some((fields[1], fields[3]))
        } else {
            None
        }
    } else {
        None
    }
}

/// The pid (field 1) carried by a process-death payload, when the message is
/// long enough to carry it.
pub open spec fn died_event(msg: Seq<char>) -> Option<Seq<char>> {
    if msg.len() >= 2 {
        let fields = payload_fields(msg);
        if fields.len() >= 2 {
            Some(fields[1])
        } else {
            None
        }
    } else {
        None
    }
}

/// Whether a process display name contains one of the configured name
/// substrings.
pub open spec fn name_matches(process: Seq<Seq<char>>, name: Seq<char>) -> bool {
    exists|k: int| 0 <= k < process.len() && contains_sub(name, #[trigger] process[k])
}

/// The state of the pid filter: the configured process-name substrings, the
/// tracked pid set, and whether the one-time snapshot seeding has happened.
#[verifier::ext_equal]
pub ghost struct PidV {
    pub process: Seq<Seq<char>>,
    pub pids: Set<Seq<char>>,
    pub seeded: bool,
}

/// The tracked set after a record's process-start side effect: the pid named
/// by an `am_proc_start` payload is added when its process name matches.
pub open spec fn pids_after_start(ps: PidV, log: LogV) -> Set<Seq<char>> {
    if log.tag == "am_proc_start"@ {
        match start_event(log.message) {
            Some(ev) => if name_matches(ps.process, ev.1) {
                ps.pids.insert(ev.0)
            } else {
                ps.pids
            },
            None => ps.pids,
        }
    } else {
        ps.pids
    }
}

/// Whether the tracked set accepts a record: its pid is tracked, or it is an
/// events-buffer record whose message text contains a tracked pid.
pub open spec fn pid_accepts(pids: Set<Seq<char>>, log: LogV) -> bool {
    pids.contains(log.pid) || (log.buffer == "events"@ && exists|p: Seq<char>|
        #[trigger] pids.contains(p) && contains_sub(log.message, p))
}

/// One step of the pid filter on a record: whether the record is rejected,
/// and the tracker state afterwards. With no configured process names the
/// filter accepts everything and changes nothing. Otherwise a process-start
/// payload is applied before the decision and a process-death removal after
/// it.
pub open spec fn pid_step(ps: PidV, log: LogV) -> (bool, PidV) {
    if ps.process.len() == 0 {
        (false, ps)
    } else {
        let pids1 = pids_after_start(ps, log);
        let reject = !pid_accepts(pids1, log);
        let pids2 = if log.tag == "am_proc_died"@ {
            match died_event(log.message) {
                Some(pid) => pids1.remove(pid),
                None => pids1,
            }
        } else {
            pids1
        };
        (reject, PidV { process: ps.process, pids: pids2, seeded: ps.seeded })
    }
}

/// The tracked set after reading one process-table line: the line's 2nd
/// token is a pid and its 9th a process name; the pid is added when the name
/// matches. A line with fewer than nine tokens adds nothing.
pub open spec fn seed_line(pids: Set<Seq<char>>, process: Seq<Seq<char>>, line: Seq<char>) -> Set<
    Seq<char>,
> {
    let toks = tokens(line);
    if toks.len() >= 9 && name_matches(process, toks[8]) {
        pids.insert(toks[1])
    } else {
        pids
    }
}

/// The tracked set after reading a whole process-table snapshot.
pub open spec fn seed_lines(
    pids: Set<Seq<char>>,
    process: Seq<Seq<char>>,
    lines: Seq<Seq<char>>,
) -> Set<Seq<char>>
    decreases lines.len(),
{
    if lines.len() == 0 {
        pids
    } else {
        seed_lines(seed_line(pids, process, lines.first()), process, lines.drop_first())
    }
}

/// The tracker state after the one-time snapshot seeding.
pub open spec fn pid_seed(ps: PidV, lines: Seq<Seq<char>>) -> PidV {
    PidV {
        process: ps.process,
        pids: seed_lines(ps.pids, ps.process, lines),
        seeded: true,
    }
}

/// Accepts records belonging to a tracked process. The tracked set is seeded
/// once from an injected process-table snapshot and then follows the
/// process-lifecycle events in the record stream itself.
pub struct PidFilter {
    process: Vec<String>,
    pids: dashmap::DashSet<String>,
    seeded: bool,
}

impl View for PidFilter {
    type V = PidV;

    closed spec fn view(&self) -> PidV {
        PidV {
            process: string_views(self.process@),
            pids: pid_set_view(self.pids),
            seeded: self.seeded,
        }
    }
}

/// Whether a name, as characters, contains one of the configured substrings.
fn matches_any(process: &Vec<String>, name: &Vec<char>) -> (r: bool)
    ensures
        r == name_matches(string_views(process@), name@),
{
    let n = process.len();
    let mut i: usize = 0;
    while i < n
        invariant
            n == process@.len(),
            0 <= i <= n,
            forall|k: int| 0 <= k < i ==> !contains_sub(name@, #[trigger] string_views(process@)[k]),
        decreases n - i,
    {
        let pat = chars_of(process[i].as_str());
        if contains_chars(name, &pat) {
            proof {
                assert(contains_sub(name@, string_views(process@)[i as int]));
            }
            return true;
        }
        i += 1;
    }
    false
}

impl PidFilter {
    /// A pid filter over the given process-name substrings; the tracked set
    /// starts empty and unseeded.
    pub fn new(process: Vec<String>) -> (r: Self)
        ensures
            r@ == (PidV {
                process: string_views(process@),
                pids: Set::<Seq<char>>::empty(),
                seeded: false,
            }),
    {
        Self { process, pids: pid_set_new(), seeded: false }
    }

    /// Whether the one-time process-table snapshot is still owed: process
    /// names are configured and no seeding has happened yet.
    pub fn needs_seed(&self) -> (r: bool)
        ensures
            r == (self@.process.len() > 0 && !self@.seeded),
    {
        self.process.len() > 0 && !self.seeded
    }

    /// Seed the tracked set from the lines of a process-table snapshot.
    pub fn seed(&mut self, lines: &Vec<String>)
        ensures
            final(self)@ == pid_seed(old(self)@, string_views(lines@)),
    {
        let n = lines.len();
        let mut i: usize = 0;
        proof {
            assert(string_views(lines@).subrange(0, n as int) =~= string_views(lines@));
        }
        while i < n
            invariant
                n == lines@.len(),
                0 <= i <= n,
                self.process@ == old(self).process@,
                self.seeded == old(self).seeded,
                seed_lines(pid_set_view(old(self).pids), string_views(old(self).process@),
                    string_views(lines@)) == seed_lines(pid_set_view(self.pids),
                    string_views(self.process@),
                    string_views(lines@).subrange(i as int, n as int)),
            decreases n - i,
        {
            let ghost tail = string_views(lines@).subrange(i as int, n as int);
            proof {
                assert(tail.first() == lines@[i as int]@);
                assert(tail.drop_first() =~= string_views(lines@).subrange(i + 1 as int, n as int));
            }
            let line = chars_of(lines[i].as_str());
            let toks = tokens_of(&line);
            if toks.len() >= 9 {
                proof {
                    assert(toks@.map_values(|x: Vec<char>| x@)[8] == toks@[8]@);
                    assert(toks@.map_values(|x: Vec<char>| x@)[1] == toks@[1]@);
                }
                if matches_any(&self.process, &toks[8]) {
                    let pid = string_from_chars(&toks[1]);
                    pid_set_insert(&mut self.pids, pid);
                }
            }
            i += 1;
        }
        proof {
            assert(string_views(lines@).subrange(n as int, n as int) =~= Seq::<Seq<char>>::empty());
        }
        self.seeded = true;
    }
}

impl Filter for PidFilter {
    fn filter(&mut self, log: &Log) -> (r: bool)
        ensures
            ({
                let (reject, ps2) = pid_step(old(self)@, log@);
                r == reject && final(self)@ == ps2
            }),
    {
        if self.process.len() == 0 {
            return false;
        }
        let msgv = chars_of(log.message.as_str());
        if str_eq(log.tag.as_str(), "am_proc_start") {
            if msgv.len() >= 2 {
                let inner = sub_chars(&msgv, 1, msgv.len() - 1);
                let fields = split_chars(&inner, ',');
                if fields.len() >= 4 {
                    proof {
                        assert(fields@.map_values(|x: Vec<char>| x@)[3] == fields@[3]@);
                        assert(fields@.map_values(|x: Vec<char>| x@)[1] == fields@[1]@);
                    }
                    if matches_any(&self.process, &fields[3]) {
                        let pid = string_from_chars(&fields[1]);
                        pid_set_insert(&mut self.pids, pid);
                    }
                }
            }
        }
        let in_set = pid_set_contains(&self.pids, &log.pid);
        let accept: bool;
        if in_set {
            accept = true;
        } else if log.is_events() {
            accept = self.message_names_tracked_pid(log);
        } else {
            accept = false;
        }
        proof {
            assert(accept == pid_accepts(pid_set_view(self.pids), log@));
        }
        if str_eq(log.tag.as_str(), "am_proc_died") {
            if msgv.len() >= 2 {
                let inner = sub_chars(&msgv, 1, msgv.len() - 1);
                let fields = split_chars(&inner, ',');
                if fields.len() >= 2 {
                    proof {
                        assert(fields@.map_values(|x: Vec<char>| x@)[1] == fields@[1]@);
                    }
                    let pid = string_from_chars(&fields[1]);
                    pid_set_remove(&mut self.pids, &pid);
                }
            }
        }
        !accept
    }
}

impl PidFilter {
    /// Whether the record's message text contains some tracked pid as a
    /// substring.
    fn message_names_tracked_pid(&self, log: &Log) -> (r: bool)
        ensures
            r == exists|p: Seq<char>|
                #[trigger] pid_set_view(self.pids).contains(p) && contains_sub(log@.message, p),
    {
        let msgv = chars_of(log.message.as_str());
        let items = pid_set_items(&self.pids);
        let n = items.len();
        let mut i: usize = 0;
        while i < n
            invariant
                n == items@.len(),
                string_views(items@).to_set() == pid_set_view(self.pids),
                0 <= i <= n,
                msgv@ == log@.message,
                forall|j: int| 0 <= j < i ==> !contains_sub(msgv@, #[trigger] items@[j]@),
            decreases n - i,
        {
            let pat = chars_of(items[i].as_str());
            if contains_chars(&msgv, &pat) {
                proof {
                    assert(string_views(items@)[i as int] == items@[i as int]@);
                    assert(string_views(items@).contains(items@[i as int]@));
                    assert(pid_set_view(self.pids).contains(items@[i as int]@));
                }
                return true;
            }
            i += 1;
        }
        proof {
            assert forall|p: Seq<char>|
                pid_set_view(self.pids).contains(p) implies !contains_sub(msgv@, p) by {
                assert(string_views(items@).to_set().contains(p));
                assert(string_views(items@).contains(p));
                let j = choose|j: int|
                    0 <= j < string_views(items@).len() && string_views(items@)[j] == p;
                assert(items@[j]@ == p);
            }
        }
        false
    }
}

} // verus!
