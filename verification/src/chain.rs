//! The filter chain: the five predicates evaluated in a fixed order
//! (pid, buffer, level, tag-include, tag-exclude), short-circuiting on the
//! first rejection.

use vstd::prelude::*;

use crate::filter::{
    buffer_rejects, level_rejects, revert_rejects, tag_rejects, BufferFilter, Filter, LevelFilter,
    RevertFilter, TagFilter,
};
use crate::log::{Level, Log, LogV};
use crate::pids::{pid_seed, pid_step, PidFilter, PidV};
use crate::text::string_views;

verus! {

/// The state of a whole filter chain: the pid tracker state and the four
/// immutable filter configurations.
#[verifier::ext_equal]
pub ghost struct ChainV {
    pub pid: PidV,
    pub buffers: Seq<Seq<char>>,
    pub min_level: Level,
    pub tag_pat: Seq<char>,
    pub tag_ignore: bool,
    pub revert_pat: Seq<char>,
    pub revert_ignore: bool,
}

/// One step of the chain on a record: whether the record survives every
/// filter, and the chain state afterwards. The pid filter always runs first
/// and is the only one that changes state; the record survives when no
/// filter rejects it.
pub open spec fn chain_step(c: ChainV, log: LogV) -> (bool, ChainV) {
    let (pid_rej, pid2) = pid_step(c.pid, log);
    let c2 = ChainV {
        pid: pid2,
        buffers: c.buffers,
        min_level: c.min_level,
        tag_pat: c.tag_pat,
        tag_ignore: c.tag_ignore,
        revert_pat: c.revert_pat,
        revert_ignore: c.revert_ignore,
    };
    let accept = !pid_rej && !buffer_rejects(c.buffers, log) && !level_rejects(c.min_level, log)
        && !tag_rejects(c.tag_pat, c.tag_ignore, log) && !revert_rejects(
        c.revert_pat,
        c.revert_ignore,
        log,
    );
    (accept, c2)
}

/// The chain run over a whole record sequence: the accept/reject decision
/// for each record, in order.
pub open spec fn chain_run(c: ChainV, logs: Seq<LogV>) -> Seq<bool>
    decreases logs.len(),
{
    if logs.len() == 0 {
        Seq::empty()
    } else {
        let (accept, c2) = chain_step(c, logs.first());
        seq![accept] + chain_run(c2, logs.drop_first())
    }
}

/// The chain state as first configured, before any record and before the
/// pid snapshot seeding.
pub open spec fn chain_init(
    process: Seq<Seq<char>>,
    buffers: Seq<Seq<char>>,
    level: Level,
    tag: Seq<char>,
    revert: Seq<char>,
    ignore: bool,
) -> ChainV {
    ChainV {
        pid: PidV { process: process, pids: Set::empty(), seeded: false },
        buffers: buffers,
        min_level: level,
        tag_pat: tag,
        tag_ignore: ignore,
        revert_pat: revert,
        revert_ignore: ignore,
    }
}

/// The ordered chain of the five filters.
pub struct FilterChain {
    pid: PidFilter,
    buffer: BufferFilter,
    level: LevelFilter,
    tag: TagFilter,
    revert: RevertFilter,
}

impl View for FilterChain {
    type V = ChainV;

    closed spec fn view(&self) -> ChainV {
        ChainV {
            pid: self.pid@,
            buffers: self.buffer@,
            min_level: self.level@,
            tag_pat: self.tag@.0,
            tag_ignore: self.tag@.1,
            revert_pat: self.revert@.0,
            revert_ignore: self.revert@.1,
        }
    }
}

impl FilterChain {
    /// A chain over the given configuration: process-name substrings for the
    /// pid filter, buffer names, minimum severity, tag-include pattern,
    /// exclusion pattern, and the shared case-insensitivity option.
    pub fn new(
        process: Vec<String>,
        buffers: Vec<String>,
        level: Level,
        tag: String,
        revert: String,
        ignore: bool,
    ) -> (r: Self)
        ensures
            r@ == chain_init(
                string_views(process@),
                string_views(buffers@),
                level,
                tag@,
                revert@,
                ignore,
            ),
    {
        Self {
            pid: PidFilter::new(process),
            buffer: BufferFilter::new(buffers),
            level: LevelFilter::new(level),
            tag: TagFilter::new(tag, ignore),
            revert: RevertFilter::new(revert, ignore),
        }
    }

    /// Whether the pid filter still owes its one-time process-table
    /// snapshot.
    pub fn needs_pid_seed(&self) -> (r: bool)
        ensures
            r == (self@.pid.process.len() > 0 && !self@.pid.seeded),
    {
        self.pid.needs_seed()
    }

    /// Seed the pid filter from the lines of a process-table snapshot.
    pub fn seed_pids(&mut self, lines: &Vec<String>)
        ensures
            final(self)@ == (ChainV { pid: pid_seed(old(self)@.pid, string_views(lines@)), ..old(
                self,
            )@ }),
    {
        self.pid.seed(lines);
    }

    /// Run one record through the chain in the fixed order; the result is
    /// true when the record survives every filter.
    pub fn apply(&mut self, log: &Log) -> (accept: bool)
        ensures
            ({
                let (a, c2) = chain_step(old(self)@, log@);
                accept == a && final(self)@ == c2
            }),
    {
        if self.pid.filter(log) {
            return false;
        }
        if self.buffer.filter(log) {
            return false;
        }
        if self.level.filter(log) {
            return false;
        }
        if self.tag.filter(log) {
            return false;
        }
        if self.revert.filter(log) {
            return false;
        }
        true
    }
}

} // verus!
