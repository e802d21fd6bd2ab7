use adblog::sink::{color_of_level, file_line, TerminalSink};
use adblog::source::{clear_args, ps_args, ADBSource};
use adblog::Log;

fn mk_log(message: &str) -> Log {
    Log {
        date: "05-24".to_string(),
        time: "07:58:15.003".to_string(),
        pid: "1454".to_string(),
        tid: "1454".to_string(),
        level: "W".to_string(),
        tag: "System.err".to_string(),
        message: message.to_string(),
        buffer: "main".to_string(),
    }
}

#[test]
fn file_line_layout() {
    let line = file_line(&mk_log("hello"));
    assert_eq!(line, "05-24 07:58:15.003  1454 1454  W System.err   hello\n");
}

#[test]
fn file_line_pads_short_fields() {
    let mut log = mk_log("m");
    log.time = "07:58".to_string();
    log.pid = "7".to_string();
    log.tid = "9".to_string();
    let line = file_line(&log);
    assert_eq!(line, "05-24 07:58           7 9     W System.err   m\n");
}

#[test]
fn terminal_render_plain_first_line() {
    let sink = TerminalSink::new("never".to_string(), 20);
    let lines = sink.render(&mk_log("first line"));
    assert_eq!(lines.len(), 1);
    let expected = format!(
        "{:11} {:>5}-{:<5} {:20} {} {}",
        "07:58:15.003", "1454", "1454", "System.err", " W ", "first line"
    );
    assert_eq!(lines[0], expected);
}

#[test]
fn terminal_render_plain_multiline() {
    let sink = TerminalSink::new("never".to_string(), 20);
    let lines = sink.render(&mk_log("first line\nsecond line"));
    assert_eq!(lines.len(), 2);
    let first = format!(
        "{:11} {:>5}-{:<5} {:20} {} {}",
        "07:58:15.003", "1454", "1454", "System.err", " W ", "first line"
    );
    assert_eq!(lines[0], first);
    let expected = format!(
        "{} {}-{} {} {} {}",
        " ".repeat(12),
        " ".repeat(5),
        " ".repeat(5),
        " ".repeat(20),
        " W ",
        "second line"
    );
    assert_eq!(lines[1], expected);
}

#[test]
fn terminal_render_truncates_long_tags() {
    let sink = TerminalSink::new("never".to_string(), 4);
    let lines = sink.render(&mk_log("m"));
    assert_eq!(lines.len(), 1);
    assert_eq!(lines[0], "07:58:15.003  1454-1454  Syst  W  m");
}

#[test]
fn terminal_render_colored_keeps_line_count() {
    let sink = TerminalSink::new("always".to_string(), 20);
    let lines = sink.render(&mk_log("a\nb\nc"));
    assert_eq!(lines.len(), 3);
}

#[test]
fn terminal_render_colored_keeps_layout_and_segments() {
    // force colorization on, whatever the test environment looks like
    colored::control::set_override(true);
    let sink = TerminalSink::new("always".to_string(), 20);
    let lines = sink.render(&mk_log("first line\nsecond line"));
    assert_eq!(lines.len(), 2);
    // the header columns are uncolored and exact
    assert!(lines[0].starts_with("07:58:15.003  1454-1454  "));
    let blank_header = format!("{} {}-{} {} ", " ".repeat(12), " ".repeat(5), " ".repeat(5), " ".repeat(20));
    assert!(lines[1].starts_with(&blank_header));
    // each painted segment still carries its text contiguously
    assert!(lines[0].contains("System.err          "));
    assert!(lines[0].contains("first line"));
    assert!(lines[1].contains("W"));
    assert!(lines[1].contains("second line"));
    // the painted line really is painted
    assert!(lines[0].contains('\u{1b}'));
    colored::control::unset_override();
}

#[test]
fn palette_maps_severities() {
    assert_eq!(color_of_level("V"), (255, 255, 255));
    assert_eq!(color_of_level("D"), (95, 175, 255));
    assert_eq!(color_of_level("I"), (5, 215, 2));
    assert_eq!(color_of_level("W"), (215, 95, 2));
    assert_eq!(color_of_level("E"), (255, 38, 0));
    assert_eq!(color_of_level("F"), (255, 38, 0));
    assert_eq!(color_of_level("?"), (255, 255, 255));
}

#[test]
fn display_line_joins_all_fields() {
    let log = mk_log("hello world");
    assert_eq!(
        log.display_line(),
        "05-24 07:58:15.003 1454 1454 W System.err hello world"
    );
}

#[test]
fn logcat_args_without_device() {
    let source = ADBSource::new(String::new());
    assert_eq!(
        source.logcat_args(),
        vec!["logcat", "-D", "-v", "long", "-b", "all"]
    );
}

#[test]
fn logcat_args_with_device() {
    let source = ADBSource::new("emulator-5554".to_string());
    assert_eq!(
        source.logcat_args(),
        vec!["-s", "emulator-5554", "logcat", "-D", "-v", "long", "-b", "all"]
    );
}

#[test]
fn bridge_command_args() {
    assert_eq!(ps_args(), vec!["shell", "ps"]);
    assert_eq!(clear_args(), vec!["logcat", "-c"]);
}
