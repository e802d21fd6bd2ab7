use adblog::chain::FilterChain;
use adblog::{Level, Log};

fn mk_log(buffer: &str, pid: &str, level: &str, tag: &str, message: &str) -> Log {
    Log {
        date: "05-24".to_string(),
        time: "07:58:15.003".to_string(),
        pid: pid.to_string(),
        tid: "1".to_string(),
        level: level.to_string(),
        tag: tag.to_string(),
        message: message.to_string(),
        buffer: buffer.to_string(),
    }
}

fn record_mix() -> Vec<Log> {
    vec![
        mk_log("main", "10", "I", "Widget", "hello"),
        mk_log("system", "10", "W", "Widget", "warn"),
        mk_log("main", "11", "V", "Widget", "verbose"),
        mk_log("events", "999", "I", "am_proc_start", "[0,77,1,com.acme.x,b]"),
        mk_log("main", "77", "E", "Widget", "tracked now"),
        mk_log("events", "77", "I", "am_proc_died", "[0,77,com.acme.x]"),
        mk_log("main", "77", "E", "Widget", "no longer tracked"),
        mk_log("radio", "10", "F", "rild", "radio stuff"),
    ]
}

fn fresh_chain() -> FilterChain {
    FilterChain::new(
        vec!["acme".to_string()],
        vec!["main".to_string(), "events".to_string()],
        Level::I,
        String::new(),
        String::new(),
        false,
    )
}

#[test]
fn identical_chains_decide_identically() {
    let mut c1 = fresh_chain();
    let mut c2 = fresh_chain();
    c1.seed_pids(&Vec::new());
    c2.seed_pids(&Vec::new());
    let records = record_mix();
    let run1: Vec<bool> = records.iter().map(|l| c1.apply(l)).collect();
    let run2: Vec<bool> = records.iter().map(|l| c2.apply(l)).collect();
    assert_eq!(run1, run2);
}

#[test]
fn chain_applies_filters_in_order() {
    let mut c = FilterChain::new(
        Vec::new(),
        vec!["main".to_string()],
        Level::W,
        String::new(),
        String::new(),
        false,
    );
    // no process names: the pid filter accepts everything
    assert!(!c.needs_pid_seed());
    // buffer filter rejects system records before the level filter matters
    assert!(!c.apply(&mk_log("system", "1", "F", "t", "m")));
    // level filter rejects verbose records on an accepted buffer
    assert!(!c.apply(&mk_log("main", "1", "V", "t", "m")));
    // everything passes
    assert!(c.apply(&mk_log("main", "1", "E", "t", "m")));
}

#[test]
fn chain_tracks_lifecycle_across_filters() {
    let mut c = fresh_chain();
    c.seed_pids(&Vec::new());
    // untracked pid on an accepted buffer is rejected by the pid filter
    assert!(!c.apply(&mk_log("main", "77", "I", "t", "m")));
    // the start event names pid 77 and survives through the events buffer
    assert!(c.apply(&mk_log("events", "999", "I", "am_proc_start", "[0,77,1,com.acme.x,b]")));
    // pid 77 is now visible
    assert!(c.apply(&mk_log("main", "77", "I", "t", "m")));
    // but still subject to the level filter
    assert!(!c.apply(&mk_log("main", "77", "V", "t", "m")));
}

#[test]
fn chain_exclusion_pattern_drops_matches() {
    let mut c = FilterChain::new(
        Vec::new(),
        vec!["all".to_string()],
        Level::V,
        String::new(),
        "chatty".to_string(),
        false,
    );
    assert!(!c.apply(&mk_log("main", "1", "I", "chatty", "m")));
    assert!(!c.apply(&mk_log("main", "1", "I", "t", "so chatty today")));
    assert!(c.apply(&mk_log("main", "1", "I", "quiet", "m")));
}

#[test]
fn chain_include_pattern_keeps_only_matches() {
    let mut c = FilterChain::new(
        Vec::new(),
        vec!["all".to_string()],
        Level::V,
        "Widget".to_string(),
        String::new(),
        false,
    );
    assert!(c.apply(&mk_log("main", "1", "I", "Widget", "m")));
    assert!(!c.apply(&mk_log("main", "1", "I", "other", "m")));
}
