use adblog::filter::{BufferFilter, LevelFilter, RevertFilter, TagFilter};
use adblog::{Filter, Level, Log};

fn mk_log(buffer: &str, level: &str, tag: &str, message: &str) -> Log {
    Log {
        date: "05-24".to_string(),
        time: "07:58:15.003".to_string(),
        pid: "1454".to_string(),
        tid: "1454".to_string(),
        level: level.to_string(),
        tag: tag.to_string(),
        message: message.to_string(),
        buffer: buffer.to_string(),
    }
}

#[test]
fn buffer_filter_accepts_configured_buffer() {
    let mut f = BufferFilter::new(vec!["main".to_string()]);
    assert!(!f.filter(&mk_log("main", "I", "t", "m")));
    assert!(f.filter(&mk_log("system", "I", "t", "m")));
}

#[test]
fn buffer_filter_all_accepts_any_buffer() {
    let mut f = BufferFilter::new(vec!["all".to_string()]);
    assert!(!f.filter(&mk_log("main", "I", "t", "m")));
    assert!(!f.filter(&mk_log("system", "I", "t", "m")));
    assert!(!f.filter(&mk_log("radio", "I", "t", "m")));
}

#[test]
fn level_filter_rejects_lower_severities() {
    let mut f = LevelFilter::new(Level::W);
    assert!(f.filter(&mk_log("main", "V", "t", "m")));
    assert!(f.filter(&mk_log("main", "D", "t", "m")));
    assert!(f.filter(&mk_log("main", "I", "t", "m")));
    assert!(!f.filter(&mk_log("main", "W", "t", "m")));
    assert!(!f.filter(&mk_log("main", "E", "t", "m")));
    assert!(!f.filter(&mk_log("main", "F", "t", "m")));
}

#[test]
fn unknown_level_token_ranks_as_silent() {
    // the fail-safe: a malformed level token outranks every minimum
    let mut f = LevelFilter::new(Level::F);
    assert!(!f.filter(&mk_log("main", "??", "t", "m")));
    assert!(!f.filter(&mk_log("main", "", "t", "m")));
}

#[test]
fn level_from_token_maps_unrecognized_to_silent() {
    assert_eq!(Level::from_token("V"), Level::V);
    assert_eq!(Level::from_token("D"), Level::D);
    assert_eq!(Level::from_token("I"), Level::I);
    assert_eq!(Level::from_token("W"), Level::W);
    assert_eq!(Level::from_token("E"), Level::E);
    assert_eq!(Level::from_token("F"), Level::F);
    assert_eq!(Level::from_token("S"), Level::S);
    assert_eq!(Level::from_token("Q"), Level::S);
    assert_eq!(Level::from_token("VV"), Level::S);
    assert_eq!(Level::from_token(""), Level::S);
}

#[test]
fn tag_filter_matches_tag_or_message() {
    let mut f = TagFilter::new("System".to_string(), false);
    assert!(!f.filter(&mk_log("main", "W", "System.err", "m")));
    assert!(!f.filter(&mk_log("main", "W", "other", "a System thing")));
    assert!(f.filter(&mk_log("main", "W", "other", "unrelated")));
}

#[test]
fn tag_filter_empty_pattern_accepts_everything() {
    let mut f = TagFilter::new(String::new(), false);
    assert!(!f.filter(&mk_log("main", "W", "anything", "at all")));
}

#[test]
fn tag_filter_is_case_sensitive_by_default() {
    let mut f = TagFilter::new("system".to_string(), false);
    assert!(f.filter(&mk_log("main", "W", "System.err", "m")));
    let mut g = TagFilter::new("system".to_string(), true);
    assert!(!g.filter(&mk_log("main", "W", "System.err", "m")));
}

#[test]
fn tag_filter_anchors_and_classes_work() {
    let mut f = TagFilter::new("^Sys.*err$".to_string(), false);
    assert!(!f.filter(&mk_log("main", "W", "System.err", "m")));
    assert!(f.filter(&mk_log("main", "W", "Subsystem.err2", "m")));
}

#[test]
fn tag_filter_invalid_pattern_rejects_everything() {
    let mut f = TagFilter::new("(".to_string(), false);
    assert!(f.filter(&mk_log("main", "W", "anything", "at all")));
    assert!(f.filter(&mk_log("events", "E", "(", "(")));
}

#[test]
fn revert_filter_rejects_matches() {
    let mut f = RevertFilter::new("System".to_string(), false);
    assert!(f.filter(&mk_log("main", "W", "System.err", "m")));
    assert!(f.filter(&mk_log("main", "W", "other", "a System thing")));
    assert!(!f.filter(&mk_log("main", "W", "other", "unrelated")));
}

#[test]
fn revert_filter_empty_pattern_accepts_everything() {
    let mut f = RevertFilter::new(String::new(), false);
    assert!(!f.filter(&mk_log("main", "W", "anything", "at all")));
}

#[test]
fn revert_filter_invalid_pattern_accepts_everything() {
    let mut f = RevertFilter::new("(".to_string(), false);
    assert!(!f.filter(&mk_log("main", "W", "anything", "at all")));
}

#[test]
fn include_and_exclude_are_complements() {
    // the same compiling pattern against the same records
    let records = [
        mk_log("main", "W", "System.err", "m"),
        mk_log("main", "W", "other", "a System thing"),
        mk_log("main", "W", "other", "unrelated"),
        mk_log("events", "I", "am_proc_start", "[0,1,2]"),
    ];
    for log in &records {
        let mut inc = TagFilter::new("Sys.em".to_string(), false);
        let mut exc = RevertFilter::new("Sys.em".to_string(), false);
        assert_eq!(inc.filter(log), !exc.filter(log));
    }
}

#[test]
fn log_buffer_predicates() {
    assert!(mk_log("main", "I", "t", "m").is_main());
    assert!(mk_log("system", "I", "t", "m").is_system());
    assert!(mk_log("crash", "I", "t", "m").is_crash());
    assert!(mk_log("events", "I", "t", "m").is_events());
    assert!(mk_log("radio", "I", "t", "m").is_radio());
    assert!(!mk_log("main", "I", "t", "m").is_system());
}

#[test]
fn level_value_is_ordered() {
    assert!(Level::V.value() < Level::D.value());
    assert!(Level::D.value() < Level::I.value());
    assert!(Level::I.value() < Level::W.value());
    assert!(Level::W.value() < Level::E.value());
    assert!(Level::E.value() < Level::F.value());
    assert!(Level::F.value() < Level::S.value());
}
