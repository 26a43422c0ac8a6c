use bytes::BytesMut;
use tale_ndjson::logpatterns::formatting::{
    colorize_json_value, colorize_map_entry, format_message, get_level_bytes, pad_spaces, write_empty_module_column,
    write_request_id_column, write_timestamp_column, JsonValue, LayoutMetrics, Timestamp, COL_SEP, LEVEL_CRITICAL,
    LEVEL_INFO, LEVEL_WARN,
};
use tale_ndjson::logpatterns::logfmt::{parse_logfmt, LogValue};
use tale_ndjson::logpatterns::patterns::{Canonical, GenericJson, Java, Message, Timestamped};
use tale_ndjson::logpatterns::sourced::{sort_sourced_lines, SourcedLine};
use tale_ndjson::logpatterns::{render_input_line, Printable};

fn ts(text: &str) -> Timestamp {
    let t: jiff::Timestamp = text.parse().expect("a valid timestamp");
    Timestamp { nanosecond: t.as_nanosecond() }
}

fn object(entries: &[(&str, JsonValue)]) -> JsonValue {
    JsonValue::Object(entries.iter().map(|(k, v)| (k.to_string(), clone_value(v))).collect())
}

fn clone_value(v: &JsonValue) -> JsonValue {
    match v {
        JsonValue::Null => JsonValue::Null,
        JsonValue::Bool(b) => JsonValue::Bool(*b),
        JsonValue::Number(n) => JsonValue::Number(n.clone()),
        JsonValue::String(s) => JsonValue::String(s.clone()),
        JsonValue::Array(vs) => JsonValue::Array(vs.iter().map(clone_value).collect()),
        JsonValue::Object(es) => JsonValue::Object(es.iter().map(|(k, v)| (k.clone(), clone_value(v))).collect()),
    }
}

fn text(s: &str) -> JsonValue {
    JsonValue::String(s.to_string())
}

fn message(level: &str, msg: &str) -> Message {
    Message {
        timestamp: None,
        message: msg.to_string(),
        level: level.to_string(),
        method: None,
        url: None,
        status: None,
        elapsed: None,
        size: None,
        request_id: None,
        thread: None,
        host: None,
        user_agent: None,
        module: None,
        file: None,
        line: None,
        function: None,
        response_bytes: None,
        request_duration: None,
        upstream_time: None,
        upstream_header_time: None,
        upstream_server: None,
        upstream_status: None,
        path: None,
        query_args: None,
        request_size: None,
        trace_id: None,
        span_id: None,
        trace_flags: None,
        resource: None,
        log: None,
        stream: None,
        pod: None,
        namespace: None,
        container: None,
        node: None,
        rest: JsonValue::Object(vec![]),
    }
}

fn timestamped(stamp: &str, msg: &str) -> Printable {
    Printable::TimeOnly(Timestamped { timestamp: ts(stamp), rest: object(&[("message", text(msg))]) })
}

fn untimed(msg: &str) -> Printable {
    Printable::Json(GenericJson { rest: object(&[("message", text(msg))]) })
}

fn extract_msg(item: &SourcedLine) -> String {
    let rest = match &item.parsed {
        Printable::Canonical(c) => return c.message.clone(),
        Printable::Java(j) => return j.message.clone(),
        Printable::Message(m) => return m.message.clone(),
        Printable::TimeOnly(t) => &t.rest,
        Printable::Json(g) => &g.rest,
        Printable::Logfmt(l) => return l.message(),
        Printable::Text(v) => return v.clone(),
    };
    match rest {
        JsonValue::Object(es) => match es.iter().find(|(k, _)| k == "message") {
            Some((_, JsonValue::String(s))) => s.clone(),
            _ => String::default(),
        },
        _ => String::default(),
    }
}

fn sourced(file: &str, line: usize, parsed: Printable) -> SourcedLine {
    SourcedLine::new(parsed, file.to_string(), line)
}

#[test]
fn layout_one() {
    let mut m = message("CRITICAL", "Database query failed");
    m.timestamp = Some(ts("2025-08-01T10:45:03Z"));
    m.elapsed = Some("250ms".to_string());
    m.rest = object(&[
        ("error_code", text("ER_NO_SUCH_TABLE")),
        ("query", text("SELECT * FROM users WHERE id = ?")),
    ]);
    let metrics = LayoutMetrics::for_width(80, false);
    let stringy = Printable::Message(Box::new(m)).to_display_string(&metrics);
    let lines: Vec<&str> = stringy.split('\n').collect();
    assert_eq!(lines.len(), 5);
}

#[test]
fn stable_sort_single_file_no_timestamps() {
    // Lines from a single file with no timestamps keep their order
    let lines = vec![
        sourced("test.log", 0, untimed("third line")),
        sourced("test.log", 1, untimed("first line")),
        sourced("test.log", 2, untimed("second line")),
    ];
    let sorted = sort_sourced_lines(lines);
    assert_eq!(sorted[0].line_number, 0);
    assert_eq!(sorted[1].line_number, 1);
    assert_eq!(sorted[2].line_number, 2);
}

#[test]
fn stable_sort_single_file_with_same_timestamps() {
    let lines = vec![
        sourced("test.log", 0, timestamped("2025-08-01T10:00:00Z", "first")),
        sourced("test.log", 1, timestamped("2025-08-01T10:00:00Z", "second")),
        sourced("test.log", 2, timestamped("2025-08-01T10:00:00Z", "third")),
    ];
    let sorted = sort_sourced_lines(lines);
    let stamp = ts("2025-08-01T10:00:00Z");
    for (i, expected) in ["first", "second", "third"].iter().enumerate() {
        let Printable::TimeOnly(ref has_stamp) = sorted[i].parsed else {
            panic!("Expected TimeOnly variant for sorted[{i}]")
        };
        assert_eq!(has_stamp.timestamp, stamp);
        assert_eq!(extract_msg(&sorted[i]), *expected);
    }
}

#[test]
fn chronological_sort_across_files() {
    let lines = vec![
        sourced("file1.log", 0, timestamped("2025-08-01T10:02:00Z", "file1 line1")),
        sourced("file2.log", 0, timestamped("2025-08-01T10:01:00Z", "file2 line1")),
        sourced("file1.log", 1, timestamped("2025-08-01T10:03:00Z", "file1 line2")),
        sourced("file2.log", 1, timestamped("2025-08-01T10:00:30Z", "file2 line2")),
    ];
    let sorted = sort_sourced_lines(lines);

    // Should be sorted chronologically regardless of file
    assert_eq!(extract_msg(&sorted[0]), "file2 line2");
    assert_eq!(extract_msg(&sorted[1]), "file2 line1");
    assert_eq!(extract_msg(&sorted[2]), "file1 line1");
    assert_eq!(extract_msg(&sorted[3]), "file1 line2");
}

#[test]
fn sorting_mixed_types() {
    let lines = vec![
        sourced("file1.log", 0, untimed("no timestamp 1")),
        sourced("file2.log", 0, timestamped("2025-08-01T10:01:00Z", "timestamped")),
        sourced("file1.log", 1, untimed("no timestamp 2")),
    ];
    let sorted = sort_sourced_lines(lines);

    // Timestamped lines should come first, then non-timestamped in file order
    assert_eq!(extract_msg(&sorted[0]), "timestamped");
    assert_eq!(extract_msg(&sorted[1]), "no timestamp 1");
    assert_eq!(extract_msg(&sorted[2]), "no timestamp 2");
}

#[test]
fn sorting_preserves_file_order() {
    let lines = vec![
        sourced("b.log", 1, untimed("b file line 2")),
        sourced("a.log", 0, untimed("a file line 1")),
        sourced("b.log", 0, untimed("b file line 1")),
        sourced("a.log", 1, untimed("a file line 2")),
    ];
    let sorted = sort_sourced_lines(lines);

    // Should be sorted by file path, then line number
    assert_eq!(extract_msg(&sorted[0]), "a file line 1");
    assert_eq!(extract_msg(&sorted[1]), "a file line 2");
    assert_eq!(extract_msg(&sorted[2]), "b file line 1");
    assert_eq!(extract_msg(&sorted[3]), "b file line 2");
}

#[test]
fn sorting_handle_empty_input() {
    let lines: Vec<SourcedLine> = vec![];
    let sorted = sort_sourced_lines(lines);
    assert_eq!(sorted.len(), 0);
}

#[test]
fn sorting_handles_invalid_json() {
    let lines = vec![
        sourced("test.log", 0, Printable::Text("not json at all".to_string())),
        sourced("test.log", 1, timestamped("2025-08-01T10:01:00Z", "valid")),
    ];
    let sorted = sort_sourced_lines(lines);

    // Valid timestamped line should come first
    assert_eq!(extract_msg(&sorted[0]), "valid");
    assert_eq!(extract_msg(&sorted[1]), "not json at all");
}

#[test]
fn level_labels_ignore_case() {
    assert_eq!(get_level_bytes("warning"), LEVEL_WARN.as_bytes());
    assert_eq!(get_level_bytes("Warn"), LEVEL_WARN.as_bytes());
    assert_eq!(get_level_bytes("crit"), LEVEL_CRITICAL.as_bytes());
    assert_eq!(get_level_bytes("verbose"), LEVEL_INFO.as_bytes());
    assert_eq!(get_level_bytes("info"), LEVEL_INFO.as_bytes());
}

#[test]
fn json_values_in_colour() {
    assert_eq!(colorize_json_value(&JsonValue::Null), "\x1b[31mnull\x1b[39m");
    assert_eq!(colorize_json_value(&JsonValue::Bool(true)), "\x1b[36mtrue\x1b[39m");
    assert_eq!(colorize_json_value(&JsonValue::Number("42".to_string())), "\x1b[93m42\x1b[39m");
    assert_eq!(colorize_json_value(&text("hi")), "\x1b[32m\"hi\"\x1b[39m");
    assert_eq!(
        colorize_json_value(&JsonValue::Array(vec![JsonValue::Null, JsonValue::Bool(false)])),
        "\x1b[31mnull\x1b[39m, \x1b[36mfalse\x1b[39m"
    );
    assert_eq!(
        colorize_json_value(&object(&[("a", JsonValue::Null)])),
        "{ \x1b[2ma\x1b[0m=\x1b[31mnull\x1b[39m }"
    );
    // an array under a key shows its elements alone
    assert_eq!(colorize_map_entry("k", &JsonValue::Array(vec![JsonValue::Null])), "\x1b[31mnull\x1b[39m");
    assert_eq!(colorize_map_entry("k", &text("v")), "\x1b[2mk\x1b[0m=\x1b[32m\"v\"\x1b[39m");
}

#[test]
fn messages_with_line_breaks_keep_them() {
    let mut buffer = BytesMut::new();
    format_message("first\nsecond", &mut buffer, 3, 80);
    let expected = format!("first\n   {}second\n", COL_SEP);
    assert_eq!(String::from_utf8_lossy(&buffer), expected);
}

#[test]
fn short_messages_stay_on_one_line() {
    let mut buffer = BytesMut::new();
    format_message("fits", &mut buffer, 3, 4);
    assert_eq!(String::from_utf8_lossy(&buffer), "fits\n");
}

#[test]
fn long_messages_are_wrapped() {
    let mut buffer = BytesMut::new();
    format_message("Foo   bar baz", &mut buffer, 2, 10);
    let expected = format!("Foo   bar\n  {}baz\n", COL_SEP);
    assert_eq!(String::from_utf8_lossy(&buffer), expected);
}

#[test]
fn time_and_request_columns_are_padded() {
    let mut buffer = BytesMut::new();
    write_timestamp_column(&mut buffer, &ts("2025-08-01T10:45:03Z"));
    let expected = format!("\x1b[94m2025-08-01-10:45:03\x1b[39m {}", COL_SEP);
    assert_eq!(String::from_utf8_lossy(&buffer), expected);

    let mut buffer = BytesMut::new();
    write_request_id_column(&mut buffer, "req_1");
    let expected = format!("\x1b[93m\x1b[1mreq_1\x1b[0m\x1b[39m{}{}", " ".repeat(15), COL_SEP);
    assert_eq!(String::from_utf8_lossy(&buffer), expected);

    let mut buffer = BytesMut::new();
    write_empty_module_column(&mut buffer);
    assert_eq!(String::from_utf8_lossy(&buffer), format!("{}{}", " ".repeat(20), COL_SEP));

    let mut buffer = BytesMut::new();
    pad_spaces(&mut buffer, 3);
    assert_eq!(&buffer[..], b"   ");
}

#[test]
fn layout_from_terminal_width() {
    let m = LayoutMetrics::for_width(100, true);
    assert_eq!(m.max_message_width, 68);
    assert_eq!(m.padding, 29);
    let m = LayoutMetrics::for_width(20, false);
    assert_eq!(m.max_message_width, 0);
    assert_eq!(m.padding, 8);
}

#[test]
fn message_location_and_status() {
    let mut m = message("INFO", "request");
    m.module = Some("app::web".to_string());
    m.function = Some("handle".to_string());
    m.file = Some("web.rs".to_string());
    m.line = Some(42);
    m.method = Some("GET".to_string());
    m.url = Some("/foo".to_string());
    m.status = Some("404".to_string());
    let cells = m.message_cells(true);
    assert_eq!(cells[0], "\x1b[2mlocation\x1b[0m=\x1b[32m\"app::web::handle (web.rs:42)\"\x1b[39m");
    assert_eq!(cells[1], "\x1b[2mrequest\x1b[0m=\x1b[32m\"GET /foo 404 Not Found\"\x1b[39m");
    assert_eq!(cells.len(), 2);

    // without the time column, the request id becomes a cell
    let mut m = message("INFO", "x");
    m.request_id = Some("r1".to_string());
    m.status = Some("299".to_string());
    let cells = m.message_cells(false);
    assert_eq!(cells[0], "\x1b[2mreqid\x1b[0m=\x1b[32m\"r1\"\x1b[39m");
    assert_eq!(cells[1], "\x1b[2mrequest\x1b[0m=\x1b[32m\"299\"\x1b[39m");
}

#[test]
fn plain_text_is_printed_as_is() {
    let metrics = LayoutMetrics::for_width(80, false);
    let out = render_input_line(&None, "not json", &metrics);
    assert_eq!(out, b"not json\n");
    let out = render_input_line(&Some(Printable::Text("hello".to_string())), "ignored", &metrics);
    assert_eq!(out, b"hello\n");
}

#[test]
fn generic_json_is_labelled() {
    let metrics = LayoutMetrics::for_width(80, false);
    let g = Printable::Json(GenericJson { rest: object(&[("a", JsonValue::Number("1".to_string()))]) });
    let text = g.to_display_string(&metrics);
    assert!(text.starts_with(tale_ndjson::logpatterns::formatting::JSON_HEADER));
    assert!(text.contains("\x1b[2ma\x1b[0m=\x1b[93m1\x1b[39m"));
    assert!(text.ends_with('\n'));
}

#[test]
fn java_lines_show_stack_traces() {
    let j = Java {
        timestamp: ts("2025-07-30T10:42:24.983Z"),
        message: "I like drinking coffee in the morning.".to_string(),
        level: "INFO".to_string(),
        thread: "main".to_string(),
        request_id: "".to_string(),
        class: "com.sprockets.widgets.Dispatcher".to_string(),
        method: "dispatchWidget".to_string(),
        source: "Dispatcher.scala:11".to_string(),
        stack_trace: "at a\nat b".to_string(),
        rest: JsonValue::Object(vec![]),
    };
    let cells = j.java_cells();
    assert_eq!(cells.len(), 3);
    assert!(cells[1].contains("com.sprockets.widgets.Dispatcher :: dispatchWidget"));
    let metrics = LayoutMetrics::for_width(200, false);
    let out = Printable::Java(Box::new(j)).to_display_string(&metrics);
    assert!(out.contains("at a\n"));
    assert!(out.ends_with("at b\n"));
}

#[test]
fn canonical_sizes_are_human() {
    let c = Canonical {
        timestamp: ts("2025-07-03T20:37:35.098873Z"),
        level: "ERROR".to_string(),
        message: "HTTP PATCH /api/auth/login".to_string(),
        method: "PUT".to_string(),
        url: "/api/users".to_string(),
        status: 201,
        elapsed: "1326ms".to_string(),
        size: 36159,
        request_id: "req_641656".to_string(),
        remote_host: "10.0.191.79".to_string(),
        user_agent: "Python-requests/2.28.1".to_string(),
        rest: object(&[("user_id", JsonValue::Number("5491".to_string()))]),
    };
    let cells = c.canonical_cells();
    assert_eq!(cells.len(), 9);
    assert_eq!(cells[3], "\x1b[2mstatus\x1b[0m=\x1b[93m201\x1b[39m");
    assert_eq!(cells[4], "\x1b[2msize\x1b[0m=\x1b[32m\"35.31 KiB\"\x1b[39m");
}

#[test]
fn logfmt_pairs_and_words() {
    let line = parse_logfmt("level=warn msg=\"disk \\\"low\\\"\" free=12 ratio=0.5 bare later=x later=y");
    assert_eq!(line.level(), "warn");
    assert_eq!(line.message(), "disk \"low\"");
    assert!(line.timestamp().is_none());
    assert_eq!(line.bare, vec!["bare".to_string()]);
    let later: Vec<&LogValue> = line.pairs.iter().filter(|(k, _)| k == "later").map(|(_, v)| v).collect();
    assert_eq!(later.len(), 1);
    assert!(matches!(later[0], LogValue::String(s) if s == "y"));
    let free = line.pairs.iter().find(|(k, _)| k == "free").map(|(_, v)| v);
    assert!(matches!(free, Some(LogValue::Int(12))));
    let ratio = line.pairs.iter().find(|(k, _)| k == "ratio").map(|(_, v)| v);
    assert!(matches!(ratio, Some(LogValue::Float(t)) if t == "0.5"));
    let cells = line.cells();
    assert!(cells.contains(&"\x1b[2mfree\x1b[0m=\x1b[95m12\x1b[39m".to_string()));
    assert!(cells.contains(&"\x1b[36mbare\x1b[39m".to_string()));
    assert!(!cells.iter().any(|c| c.contains("level")));
}

#[test]
fn logfmt_without_message_joins_words() {
    let line = parse_logfmt("  hello   world ");
    assert_eq!(line.message(), "hello world");
    assert_eq!(line.level(), "INFO");
    assert!(line.pairs.is_empty());
}

#[test]
fn sorting_keeps_input_order_for_equal_file_keys() {
    let text = |t: &str| Printable::Text(t.to_string());
    let lines = vec![
        SourcedLine::new(text("second"), "x.log".to_string(), 4),
        SourcedLine::new(text("earlier"), "x.log".to_string(), 1),
        SourcedLine::new(text("first"), "x.log".to_string(), 4),
    ];
    let sorted = sort_sourced_lines(lines);
    let order: Vec<String> = sorted
        .iter()
        .map(|l| match &l.parsed {
            Printable::Text(t) => t.clone(),
            _ => String::new(),
        })
        .collect();
    assert_eq!(order, vec!["earlier".to_string(), "second".to_string(), "first".to_string()]);
}

#[test]
fn checked_write_appends_the_rendering() {
    let metrics = tale_ndjson::logpatterns::formatting::LayoutMetrics::for_width(120, false);
    let line = Printable::Text("hi".to_string());
    let mut buffer = BytesMut::new();
    buffer.extend_from_slice(b">");
    assert_eq!(line.write_checked(&mut buffer, &metrics), Some(3));
    assert_eq!(&buffer[..], b">hi");
}

#[test]
fn logfmt_times_without_an_offset_stay_text() {
    // Both timestamp patterns lack an offset, so `strptime` cannot place
    // the time on the timeline and the value stays text.
    let line = parse_logfmt("time=2025-08-01T10:00:00Z msg=hi");
    let time = line.pairs.iter().find(|(k, _)| k == "time").map(|(_, v)| v);
    assert!(matches!(time, Some(LogValue::String(s)) if s == "2025-08-01T10:00:00Z"));
    assert!(line.timestamp().is_none());
}

#[test]
fn a_line_renders_into_a_new_buffer() {
    let metrics = tale_ndjson::logpatterns::formatting::LayoutMetrics::for_width(120, false);
    let line = Printable::Text("plain words".to_string());
    let buffer = line.to_buffer(&metrics).expect("a short line fits");
    assert_eq!(&buffer[..], b"plain words");
}
