//! The laws the library states about itself, proved from the contracts of
//! the parser and the filters.

use vstd::prelude::*;

use crate::chain::{chain_run, ChainV};
use crate::filter::{level_rejects, regex_ok, revert_rejects, tag_rejects};
use crate::log::{sev, spec_level_of, Level, LogV};
use crate::parse::{
    acc_init, acc_run, acc_step, flush_out, is_separator, parse_header, AccV, PendV,
};
use crate::pids::{died_event, pid_step, start_event, PidV};
use crate::text::{is_ws, join_nl, tokens, trim_end_ws};

verus! {

/// The continuation lines of a record, each with trailing whitespace
/// removed, joined by newlines.
pub open spec fn joined_trimmed(conts: Seq<Seq<char>>) -> Seq<char> {
    join_nl(conts.map_values(|c: Seq<char>| trim_end_ws(c)))
}

proof fn lemma_trim_end_prefix(s: Seq<char>)
    ensures
        trim_end_ws(s).len() <= s.len(),
        forall|i: int| 0 <= i < trim_end_ws(s).len() ==> trim_end_ws(s)[i] == s[i],
    decreases s.len(),
{
    if s.len() > 0 && is_ws(s.last()) {
        lemma_trim_end_prefix(s.drop_last());
        assert forall|i: int| 0 <= i < trim_end_ws(s).len() implies trim_end_ws(s)[i] == s[i] by {
            assert(trim_end_ws(s) == trim_end_ws(s.drop_last()));
            assert(trim_end_ws(s.drop_last())[i] == s.drop_last()[i]);
        }
    }
}

proof fn lemma_trim_end_last_not_ws(s: Seq<char>)
    ensures
        trim_end_ws(s).len() > 0 ==> !is_ws(trim_end_ws(s).last()),
    decreases s.len(),
{
    if s.len() > 0 && is_ws(s.last()) {
        lemma_trim_end_last_not_ws(s.drop_last());
    }
}

proof fn lemma_join_nl_last(m: Seq<Seq<char>>)
    requires
        m.len() > 0,
        m.last().len() > 0,
    ensures
        join_nl(m).len() > 0,
        join_nl(m).last() == m.last().last(),
    decreases m.len(),
{
    if m.len() > 1 {
        lemma_join_nl_last(m.drop_first());
        assert(m.drop_first().last() == m.last());
        assert((m[0] + seq!['\n'] + join_nl(m.drop_first())).last() == join_nl(
            m.drop_first(),
        ).last());
    }
}

/// The state reached by feeding only continuation lines to an accumulator
/// with an open record: nothing is emitted, the header fields and the buffer
/// stay, and the message grows by the trimmed lines joined with newlines.
proof fn lemma_conts_run(st: AccV, conts: Seq<Seq<char>>)
    requires
        st.cur is Some,
        forall|i: int|
            0 <= i < conts.len() ==> !is_separator(#[trigger] conts[i]) && parse_header(
                conts[i],
            ) is None,
    ensures
        ({
            let (st2, out) = acc_run(st, conts);
            let p = st.cur->Some_0;
            out == Seq::<LogV>::empty() && st2.buffer == st.buffer && st2.cur is Some && {
                let q = st2.cur->Some_0;
                q.date == p.date && q.time == p.time && q.pid == p.pid && q.tid == p.tid && q.level
                    == p.level && q.tag == p.tag && q.buffer == p.buffer && (if conts.len() == 0 {
                    q.msg == p.msg && q.has_msg == p.has_msg
                } else {
                    q.has_msg && q.msg == (if p.has_msg {
                        p.msg + seq!['\n'] + joined_trimmed(conts)
                    } else {
                        joined_trimmed(conts)
                    })
                })
            }
        }),
    decreases conts.len(),
{
    if conts.len() > 0 {
        let p = st.cur->Some_0;
        let c0 = conts.first();
        let (st1, out1) = acc_step(st, c0);
        assert(out1 is None);
        lemma_conts_run(st1, conts.drop_first());
        let m = conts.map_values(|c: Seq<char>| trim_end_ws(c));
        assert(m.drop_first() =~= conts.drop_first().map_values(|c: Seq<char>| trim_end_ws(c)));
        if conts.len() == 1 {
            assert(joined_trimmed(conts) == m[0]);
        } else {
            assert(joined_trimmed(conts) == m[0] + seq!['\n'] + join_nl(m.drop_first()));
            if p.has_msg {
                assert((p.msg + seq!['\n'] + trim_end_ws(c0)) + seq!['\n'] + join_nl(m.drop_first())
                    =~= p.msg + seq!['\n'] + (trim_end_ws(c0) + seq!['\n'] + join_nl(
                    m.drop_first(),
                )));
            } else {
                assert(trim_end_ws(c0) + seq!['\n'] + join_nl(m.drop_first()) =~= joined_trimmed(
                    conts,
                ));
            }
        }
    }
}

/// One separator naming a buffer, one header, then any number of
/// continuation lines: the run emits nothing along the way and leaves
/// exactly one completed record pending, whose buffer is the separator's
/// fourth token, whose header fields are the header's captures, and whose
/// message is the trimmed continuation lines joined by newlines in order.
pub proof fn lemma_single_record(sep: Seq<char>, header: Seq<char>, conts: Seq<Seq<char>>)
    requires
        is_separator(sep),
        tokens(sep).len() >= 4,
        parse_header(header) is Some,
        forall|i: int|
            0 <= i < conts.len() ==> !is_separator(#[trigger] conts[i]) && parse_header(
                conts[i],
            ) is None,
        conts.len() > 0 ==> trim_end_ws(conts.last()).len() > 0,
    ensures
        ({
            let lines = seq![sep, header] + conts;
            let (st, emitted) = acc_run(acc_init(), lines);
            let h = parse_header(header)->Some_0;
            emitted == Seq::<LogV>::empty() && flush_out(st.cur) == Some(
                LogV {
                    date: h.date,
                    time: h.time,
                    pid: h.pid,
                    tid: h.tid,
                    level: h.level,
                    tag: h.tag,
                    message: joined_trimmed(conts),
                    buffer: tokens(sep)[3],
                },
            )
        }),
{
    let lines = seq![sep, header] + conts;
    let h = parse_header(header)->Some_0;

    // a header line never reads as a separator: it starts with '['
    lemma_trim_end_prefix(header);
    assert(trim_end_ws(header)[0] == header[0]);
    assert(!is_separator(header));

    assert(lines.first() == sep);
    let (st1, out1) = acc_step(acc_init(), sep);
    assert(out1 is None);
    assert(st1.buffer == tokens(sep)[3]);

    assert(lines.drop_first().first() == header);
    let (st2, out2) = acc_step(st1, header);
    assert(out2 is None);
    let p = st2.cur->Some_0;
    assert(p.msg == Seq::<char>::empty() && !p.has_msg);

    assert(lines.drop_first().drop_first() =~= conts);
    assert(acc_run(acc_init(), lines) == acc_run(st1, lines.drop_first()));
    assert(acc_run(st1, lines.drop_first()) == acc_run(st2, conts));
    lemma_conts_run(st2, conts);
    let (st3, out3) = acc_run(st2, conts);
    let q = st3.cur->Some_0;

    // the flushed message is the join, which carries no trailing whitespace
    if conts.len() == 0 {
        assert(conts.map_values(|c: Seq<char>| trim_end_ws(c)) =~= Seq::<Seq<char>>::empty());
        assert(q.msg == Seq::<char>::empty());
        assert(trim_end_ws(q.msg) == joined_trimmed(conts));
    } else {
        let m = conts.map_values(|c: Seq<char>| trim_end_ws(c));
        assert(m.last() == trim_end_ws(conts.last()));
        lemma_trim_end_last_not_ws(conts.last());
        lemma_join_nl_last(m);
        assert(!is_ws(join_nl(m).last()));
        assert(trim_end_ws(q.msg) == q.msg);
    }
}

/// Severity filtering is monotone: a filter with minimum severity `high`
/// rejects every record whose token names a strictly lower severity, and
/// accepts every record whose token names a severity at least `high`.
pub proof fn lemma_level_filter_monotone(low: Level, high: Level, log: LogV)
    requires
        sev(low) < sev(high),
    ensures
        spec_level_of(log.level) == low ==> level_rejects(high, log),
        sev(spec_level_of(log.level)) >= sev(high) ==> !level_rejects(high, log),
{
}

/// Tag-include and tag-exclude are logical complements: for a fixed nonempty
/// pattern that compiles, a record is rejected by the include filter exactly
/// when it is accepted by the exclude filter.
pub proof fn lemma_include_exclude_complement(pat: Seq<char>, ignore_case: bool, log: LogV)
    requires
        pat.len() > 0,
        regex_ok(pat, ignore_case),
    ensures
        tag_rejects(pat, ignore_case, log) == !revert_rejects(pat, ignore_case, log),
{
}

/// A matching process-start record adds its payload pid to the tracked set.
pub proof fn lemma_start_tracks(ps: PidV, log: LogV)
    requires
        ps.process.len() > 0,
        log.tag == "am_proc_start"@,
        start_event(log.message) is Some,
        crate::pids::name_matches(ps.process, start_event(log.message)->Some_0.1),
    ensures
        pid_step(ps, log).1.pids.contains(start_event(log.message)->Some_0.0),
{
    reveal_strlit("am_proc_start");
    reveal_strlit("am_proc_died");
    assert("am_proc_start"@.len() == 13 && "am_proc_died"@.len() == 12);
    let pid = start_event(log.message)->Some_0.0;
    assert(pid_step(ps, log).1.pids == crate::pids::pids_after_start(ps, log));
    assert(crate::pids::pids_after_start(ps, log).contains(pid));
}

/// A record whose pid is tracked is accepted, whatever its buffer.
pub proof fn lemma_tracked_accepted(ps: PidV, log: LogV)
    requires
        ps.process.len() > 0,
        ps.pids.contains(log.pid),
    ensures
        !pid_step(ps, log).0,
{
    assert(crate::pids::pids_after_start(ps, log).contains(log.pid));
}

/// A death record about a tracked pid is itself still accepted, and the pid
/// is no longer tracked afterwards.
pub proof fn lemma_death_applies_after(ps: PidV, log: LogV)
    requires
        ps.process.len() > 0,
        log.tag == "am_proc_died"@,
        died_event(log.message) is Some,
        ps.pids.contains(log.pid),
        died_event(log.message) == Some(log.pid),
    ensures
        !pid_step(ps, log).0,
        !pid_step(ps, log).1.pids.contains(log.pid),
{
    reveal_strlit("am_proc_start");
    reveal_strlit("am_proc_died");
    assert("am_proc_start"@.len() == 13 && "am_proc_died"@.len() == 12);
    assert(crate::pids::pids_after_start(ps, log) == ps.pids);
    assert(crate::pids::pids_after_start(ps, log).contains(log.pid));
}

/// A record whose pid is not tracked is rejected, when it is no lifecycle
/// event and sits outside the events buffer.
pub proof fn lemma_untracked_rejected(ps: PidV, log: LogV)
    requires
        ps.process.len() > 0,
        !ps.pids.contains(log.pid),
        log.buffer != "events"@,
        log.tag != "am_proc_start"@,
    ensures
        pid_step(ps, log).0,
{
    assert(crate::pids::pids_after_start(ps, log) == ps.pids);
}

/// Filtering is repeatable: two filter chains whose configurations and
/// tracker states agree decide any record sequence identically. In
/// particular two freshly-initialized chains with identical configuration
/// yield identical accept/reject sequences.
pub proof fn lemma_chain_repeatable(c1: ChainV, c2: ChainV, logs: Seq<LogV>)
    requires
        c1.pid.process == c2.pid.process,
        c1.pid.pids == c2.pid.pids,
        c1.pid.seeded == c2.pid.seeded,
        c1.buffers == c2.buffers,
        c1.min_level == c2.min_level,
        c1.tag_pat == c2.tag_pat,
        c1.tag_ignore == c2.tag_ignore,
        c1.revert_pat == c2.revert_pat,
        c1.revert_ignore == c2.revert_ignore,
    ensures
        chain_run(c1, logs) == chain_run(c2, logs),
{
    assert(c1.pid =~= c2.pid);
    assert(c1 =~= c2);
}

} // verus!
