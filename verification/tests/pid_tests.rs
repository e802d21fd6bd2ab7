use adblog::pids::PidFilter;
use adblog::{Filter, Log};

fn mk_log(buffer: &str, pid: &str, tag: &str, message: &str) -> Log {
    Log {
        date: "05-24".to_string(),
        time: "07:58:15.003".to_string(),
        pid: pid.to_string(),
        tid: "1".to_string(),
        level: "I".to_string(),
        tag: tag.to_string(),
        message: message.to_string(),
        buffer: buffer.to_string(),
    }
}

#[test]
fn no_process_names_accepts_everything() {
    let mut f = PidFilter::new(Vec::new());
    assert!(!f.needs_seed());
    assert!(!f.filter(&mk_log("main", "77", "t", "m")));
}

#[test]
fn seed_from_snapshot_tracks_matching_pids() {
    let mut f = PidFilter::new(vec!["acme".to_string()]);
    assert!(f.needs_seed());
    f.seed(&vec![
        "USER PID PPID VSZ RSS WCHAN ADDR S NAME".to_string(),
        "u0_a1 1234 1 100 100 0 0 S com.acme.widget".to_string(),
        "u0_a2 5678 1 100 100 0 0 S com.other.app".to_string(),
    ]);
    assert!(!f.needs_seed());
    assert!(!f.filter(&mk_log("main", "1234", "t", "m")));
    assert!(f.filter(&mk_log("main", "5678", "t", "m")));
}

#[test]
fn seed_skips_short_lines() {
    let mut f = PidFilter::new(vec!["acme".to_string()]);
    f.seed(&vec!["too short".to_string(), String::new()]);
    assert!(f.filter(&mk_log("main", "1234", "t", "m")));
}

#[test]
fn proc_start_then_death_lifecycle() {
    let mut f = PidFilter::new(vec!["app".to_string()]);
    f.seed(&Vec::new());

    // before the start event, pid 1234 is unknown
    assert!(f.filter(&mk_log("main", "1234", "t", "m")));

    // the start event names pid 1234 for process com.app.x
    let start = mk_log("events", "520", "am_proc_start", "[0,1234,10210,com.app.x,broadcast]");
    // the event itself survives: its message names the now-tracked pid
    assert!(!f.filter(&start));

    // subsequent records of pid 1234 are accepted
    assert!(!f.filter(&mk_log("main", "1234", "t", "m")));

    // the death record about pid 1234 is itself still visible
    let died = mk_log("events", "1234", "am_proc_died", "[0,1234,com.app.x]");
    assert!(!f.filter(&died));

    // afterwards unrelated records of pid 1234 are rejected again
    assert!(f.filter(&mk_log("main", "1234", "t", "m")));
}

#[test]
fn start_event_for_other_process_is_not_tracked() {
    let mut f = PidFilter::new(vec!["acme".to_string()]);
    f.seed(&Vec::new());
    let start = mk_log("events", "520", "am_proc_start", "[0,1234,10210,com.other.x,broadcast]");
    assert!(f.filter(&start));
    assert!(f.filter(&mk_log("main", "1234", "t", "m")));
}

#[test]
fn events_buffer_record_naming_tracked_pid_is_accepted() {
    let mut f = PidFilter::new(vec!["acme".to_string()]);
    f.seed(&vec!["u 42 1 0 0 0 0 S com.acme".to_string()]);
    assert!(!f.filter(&mk_log("events", "999", "am_pause", "activity of 42 paused")));
    assert!(f.filter(&mk_log("main", "999", "am_pause", "activity of 42 paused")));
}

#[test]
fn malformed_lifecycle_payloads_change_nothing() {
    let mut f = PidFilter::new(vec!["acme".to_string()]);
    f.seed(&Vec::new());
    assert!(f.filter(&mk_log("main", "7", "am_proc_start", "")));
    assert!(f.filter(&mk_log("main", "7", "am_proc_start", "[]")));
    assert!(f.filter(&mk_log("main", "7", "am_proc_start", "[only,two]")));
    assert!(f.filter(&mk_log("main", "7", "am_proc_died", "x")));
}
