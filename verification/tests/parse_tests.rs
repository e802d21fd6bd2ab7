use adblog::parse::Accumulator;

fn collect_record(lines: &[&str]) -> Option<adblog::Log> {
    let mut acc = Accumulator::new();
    let mut out = None;
    for line in lines {
        if let Some(log) = acc.step(line) {
            assert!(out.is_none(), "more than one record emitted");
            out = Some(log);
        }
    }
    if out.is_none() {
        out = acc.finish();
    }
    out
}

#[test]
fn end_to_end_scenario() {
    let mut acc = Accumulator::new();
    assert!(acc.step("--------- switch to main\n").is_none());
    assert!(acc.step("[ 05-24 07:58:15.003  1454:  1454 W/System.err ]\n").is_none());
    assert!(acc.step("first line\n").is_none());
    assert!(acc.step("second line\n").is_none());
    let log = acc.step("[ 05-24 07:58:15.004  1454:  1454 W/System.err ]\n").unwrap();
    assert_eq!(log.buffer, "main");
    assert_eq!(log.date, "05-24");
    assert_eq!(log.time, "07:58:15.003");
    assert_eq!(log.pid, "1454");
    assert_eq!(log.tid, "1454");
    assert_eq!(log.level, "W");
    assert_eq!(log.tag, "System.err");
    assert_eq!(log.message, "first line\nsecond line");
}

#[test]
fn end_to_end_scenario_eof() {
    let log = collect_record(&[
        "--------- switch to main\n",
        "[ 05-24 07:58:15.003  1454:  1454 W/System.err ]\n",
        "first line\n",
        "second line\n",
    ])
    .unwrap();
    assert_eq!(log.buffer, "main");
    assert_eq!(log.message, "first line\nsecond line");
}

#[test]
fn one_record_with_joined_continuations() {
    let log = collect_record(&[
        "--------- beginning of crash\n",
        "[ 01-02 03:04:05.678   99:  100 E/AndroidRuntime ]\n",
        "a\n",
        "b\n",
        "c\n",
    ])
    .unwrap();
    assert_eq!(log.buffer, "crash");
    assert_eq!(log.pid, "99");
    assert_eq!(log.tid, "100");
    assert_eq!(log.level, "E");
    assert_eq!(log.tag, "AndroidRuntime");
    assert_eq!(log.message, "a\nb\nc");
}

#[test]
fn record_without_continuation_has_empty_message() {
    let mut acc = Accumulator::new();
    acc.step("--------- switch to main\n");
    acc.step("[ 05-24 07:58:15.003  1454:  1454 W/Tag ]\n");
    let log = acc.step("[ 05-24 07:58:15.004  1454:  1454 W/Tag ]\n").unwrap();
    assert_eq!(log.message, "");
}

#[test]
fn header_before_any_separator_gets_empty_buffer() {
    let log = collect_record(&[
        "[ 05-24 07:58:15.003  1454:  1454 W/Tag ]\n",
        "hello\n",
    ])
    .unwrap();
    assert_eq!(log.buffer, "");
    assert_eq!(log.message, "hello");
}

#[test]
fn text_before_first_header_is_dropped() {
    let log = collect_record(&[
        "junk that belongs to no record\n",
        "--------- switch to system\n",
        "[ 05-24 07:58:15.003  1454:  1454 I/Tag ]\n",
        "body\n",
    ])
    .unwrap();
    assert_eq!(log.buffer, "system");
    assert_eq!(log.message, "body");
}

#[test]
fn separator_flushes_with_previous_buffer() {
    let mut acc = Accumulator::new();
    acc.step("--------- switch to main\n");
    acc.step("[ 05-24 07:58:15.003  1454:  1454 W/Tag ]\n");
    acc.step("msg\n");
    let log = acc.step("--------- switch to system\n").unwrap();
    assert_eq!(log.buffer, "main");
    assert_eq!(log.message, "msg");
}

#[test]
fn short_separator_line_names_empty_buffer() {
    let log = collect_record(&[
        "---------\n",
        "[ 05-24 07:58:15.003  1454:  1454 W/Tag ]\n",
        "m\n",
    ])
    .unwrap();
    assert_eq!(log.buffer, "");
}

#[test]
fn tag_keeps_later_slashes() {
    let log = collect_record(&[
        "--------- switch to main\n",
        "[ 05-24 07:58:15.003  1454:  1454 D/com/acme/Widget ]\n",
        "m\n",
    ])
    .unwrap();
    assert_eq!(log.level, "D");
    assert_eq!(log.tag, "com/acme/Widget");
}

#[test]
fn line_without_slash_is_continuation() {
    let log = collect_record(&[
        "--------- switch to main\n",
        "[ 05-24 07:58:15.003  1454:  1454 W/Tag ]\n",
        "[ 05-24 07:58:15.003  1454:  1454 no-slash-here ]\n",
    ])
    .unwrap();
    assert_eq!(log.tag, "Tag");
    assert_eq!(log.message, "[ 05-24 07:58:15.003  1454:  1454 no-slash-here ]");
}

#[test]
fn malformed_date_is_continuation() {
    let log = collect_record(&[
        "--------- switch to main\n",
        "[ 05-24 07:58:15.003  1454:  1454 W/Tag ]\n",
        "[ 5-24 07:58:15.003  1454:  1454 W/Other ]\n",
    ])
    .unwrap();
    assert_eq!(log.tag, "Tag");
    assert!(log.message.contains("5-24"));
}

#[test]
fn continuation_trailing_whitespace_is_trimmed() {
    let log = collect_record(&[
        "--------- switch to main\n",
        "[ 05-24 07:58:15.003  1454:  1454 W/Tag ]\n",
        "padded   \r\n",
    ])
    .unwrap();
    assert_eq!(log.message, "padded");
}

#[test]
fn empty_continuation_lines_join_and_trim() {
    let log = collect_record(&[
        "--------- switch to main\n",
        "[ 05-24 07:58:15.003  1454:  1454 W/Tag ]\n",
        "\n",
        "x\n",
        "\n",
    ])
    .unwrap();
    // joined as "" + "\n" + "x" + "\n" + "", then end-trimmed at the flush
    assert_eq!(log.message, "\nx");
}

#[test]
fn finish_without_open_record_yields_nothing() {
    let mut acc = Accumulator::new();
    acc.step("--------- switch to main\n");
    assert!(acc.finish().is_none());
}
