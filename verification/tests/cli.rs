use wattch::cli::{
    daemon_error_message, exit_code_of, parse_duration_arg, run_step, select_sources,
    source_name_map, stream_step, RunAction, RunEvent, StreamAction, StreamEvent, StreamFormat,
};
use wattch::output::{csv_escape, format_sample_table_header, json_escape, render_rows, stream_header};
use wattch::proto::Source;
use wattch::WattchError;

fn source(source_id: u32, available: bool) -> Source {
    Source {
        source_id,
        name: format!("rapl:{source_id}"),
        kind: "rapl".to_string(),
        unit: "joule".to_string(),
        available,
    }
}

#[test]
fn select_all_sources_when_none_requested() {
    let selected =
        select_sources(&[source(1, true), source(2, false)], &[]).expect("select sources");

    assert_eq!(selected.len(), 1);
    assert_eq!(selected[0].source_id, 1);
}

#[test]
fn select_requested_sources() {
    let selected =
        select_sources(&[source(1, true), source(2, true)], &[2]).expect("select sources");

    assert_eq!(selected.len(), 1);
    assert_eq!(selected[0].source_id, 2);
}

#[test]
fn select_rejects_missing_source() {
    let error = select_sources(&[source(1, true)], &[2]).expect_err("missing source");

    assert!(matches!(error, WattchError::SourceNotFound(2)));
    assert!(error.to_string().contains('2'));
}

#[test]
fn select_keeps_requested_order_and_rejects_unavailable() {
    let sources = [source(1, true), source(2, true), source(3, false)];
    let selected = select_sources(&sources, &[2, 1, 2]).expect("select sources");
    let ids: Vec<u32> = selected.iter().map(|s| s.source_id).collect();
    assert_eq!(ids, vec![2, 1, 2]);
    let error = select_sources(&sources, &[1, 3]).expect_err("unavailable");
    assert!(matches!(error, WattchError::SourceUnavailable(3)));
    assert_eq!(error.to_string(), "source unavailable: 3");
}

#[test]
fn source_names_by_id() {
    let names = source_name_map(&[source(1, true), source(7, false)]);
    assert_eq!(names.len(), 2);
    assert_eq!(names[&1], "rapl:1");
    assert_eq!(names[&7], "rapl:7");
    let mut renamed = source(1, true);
    renamed.name = "later".to_string();
    let names = source_name_map(&[source(1, true), renamed]);
    assert_eq!(names.len(), 1);
    assert_eq!(names[&1], "later");
}

#[test]
fn duration_argument_messages() {
    assert_eq!(
        parse_duration_arg("250ms").expect("duration"),
        std::time::Duration::from_millis(250)
    );
    assert_eq!(
        parse_duration_arg("").expect_err("empty"),
        "bad request: duration must not be empty"
    );
}

#[test]
fn format_sources_csv() {
    let output = wattch::output::format_sources_csv(&[Source {
        source_id: 1,
        name: "rapl:package-0".to_string(),
        kind: "rapl".to_string(),
        unit: "joule".to_string(),
        available: true,
    }]);

    assert_eq!(
        output,
        "id,name,kind,unit,available\n1,rapl:package-0,rapl,joule,true"
    );
}

#[test]
fn format_sources_csv_quotes_special_fields() {
    let mut odd = source(12, false);
    odd.name = "a,\"b\"".to_string();
    assert_eq!(
        wattch::output::format_sources_csv(&[odd, source(3, true)]),
        "id,name,kind,unit,available\n12,\"a,\"\"b\"\"\",rapl,joule,false\n3,rapl:3,rapl,joule,true"
    );
    assert_eq!(wattch::output::format_sources_csv(&[]), "id,name,kind,unit,available");
}

#[test]
fn csv_escape_cases() {
    assert_eq!(csv_escape("plain"), "plain");
    assert_eq!(csv_escape("line\nbreak"), "\"line\nbreak\"");
    assert_eq!(csv_escape("cr\r"), "\"cr\r\"");
    assert_eq!(csv_escape("say \"hi\""), "\"say \"\"hi\"\"\"");
    assert_eq!(csv_escape(""), "");
}

#[test]
fn format_sample_csv_header() {
    assert_eq!(
        wattch::output::format_sample_csv_header(),
        "elapsed_s,source_id,source_name,energy_j,delta_j,power_w,interval_ns,counter_wrap"
    );
}

#[test]
fn format_sources_json() {
    let output = wattch::output::format_sources_json(&[Source {
        source_id: 1,
        name: "rapl:package-0".to_string(),
        kind: "rapl".to_string(),
        unit: "joule".to_string(),
        available: true,
    }]);

    assert!(output.contains("\"id\": 1"));
    assert!(output.contains("\"name\": \"rapl:package-0\""));
}

#[test]
fn format_sources_json_exact() {
    assert_eq!(wattch::output::format_sources_json(&[]), "[\n\n]");
    assert_eq!(
        wattch::output::format_sources_json(&[source(1, true), source(2, false)]),
        "[\n  {\n    \"id\": 1,\n    \"name\": \"rapl:1\",\n    \"kind\": \"rapl\",\n    \"unit\": \"joule\",\n    \"available\": true\n  },\n  {\n    \"id\": 2,\n    \"name\": \"rapl:2\",\n    \"kind\": \"rapl\",\n    \"unit\": \"joule\",\n    \"available\": false\n  }\n]"
    );
}

#[test]
fn json_escape_cases() {
    assert_eq!(json_escape("plain é"), "plain é");
    assert_eq!(json_escape("q\"b\\"), "q\\\"b\\\\");
    assert_eq!(json_escape("\n\r\t"), "\\n\\r\\t");
    assert_eq!(json_escape("\u{1}\u{1f}\u{7f}\u{9f}\u{a0}"), "\\u0001\\u001f\\u007f\\u009f\u{a0}");
}

#[test]
fn format_sources_table() {
    let output = wattch::output::format_sources_table(&[Source {
        source_id: 1,
        name: "rapl:package-0".to_string(),
        kind: "rapl".to_string(),
        unit: "joule".to_string(),
        available: true,
    }]);

    assert!(output.contains("ID"));
    assert!(output.contains("rapl:package-0"));
    assert!(output.contains("yes"));
}

#[test]
fn format_sources_table_exact() {
    assert_eq!(
        wattch::output::format_sources_table(&[source(1, true), source(10, false)]),
        "ID  NAME     KIND  UNIT   AVAILABLE\n1   rapl:1   rapl  joule  yes\n10  rapl:10  rapl  joule  no"
    );
}

#[test]
fn render_rows_aligns_columns() {
    let rows = vec![
        vec!["a".to_string(), "bbb".to_string(), "c".to_string()],
        vec!["dddd".to_string(), "e".to_string()],
        vec!["f".to_string()],
    ];
    assert_eq!(render_rows(&rows), "a     bbb  c\ndddd  e\nf");
    assert_eq!(render_rows(&[]), "");
    let wide = vec![vec!["é".to_string(), "x".to_string()], vec!["ab".to_string(), "y".to_string()]];
    assert_eq!(render_rows(&wide), "é   x\nab  y");
}

#[test]
fn sample_headers() {
    assert_eq!(
        format_sample_table_header(),
        "TIME  SOURCE  ENERGY_J  DELTA_J  POWER_W"
    );
    assert_eq!(stream_header(StreamFormat::Csv), Some(wattch::output::format_sample_csv_header()));
    assert_eq!(stream_header(StreamFormat::Table), Some(format_sample_table_header()));
    assert_eq!(stream_header(StreamFormat::Line), None);
    assert_eq!(stream_header(StreamFormat::Jsonl), None);
}

#[test]
fn daemon_error_messages() {
    assert_eq!(daemon_error_message(4, "source not found: 99"), "daemon error 4: source not found: 99");
    assert_eq!(daemon_error_message(0, ""), "daemon error 0: ");
}

#[test]
fn stream_steps() {
    assert!(matches!(stream_step(StreamEvent::Interrupted), StreamAction::StopAndEnd));
    assert!(matches!(stream_step(StreamEvent::DurationElapsed), StreamAction::StopAndEnd));
    assert!(matches!(stream_step(StreamEvent::Disconnected), StreamAction::ReportDisconnectAndEnd));
    assert!(matches!(stream_step(StreamEvent::Sample), StreamAction::PrintSample));
    assert!(matches!(stream_step(StreamEvent::Stopped), StreamAction::End));
    assert!(matches!(stream_step(StreamEvent::OtherResponse), StreamAction::Wait));
    match stream_step(StreamEvent::DaemonError { code: 6, message: "stream already running".to_string() }) {
        StreamAction::Fail(message) => assert_eq!(message, "daemon error 6: stream already running"),
        _ => panic!("expected a failure"),
    }
}

#[test]
fn duration_argument_is_parse_duration_with_message() {
    for text in ["100ms", "5s", "2m", "", "1h", "ms", "1xs", "+7s"] {
        let expected = wattch::parse_duration(text).map_err(|error| error.to_string());
        assert_eq!(parse_duration_arg(text), expected);
    }
}

#[test]
fn run_exit_codes() {
    assert_eq!(exit_code_of(Some(0)), 0);
    assert_eq!(exit_code_of(Some(42)), 42);
    assert_eq!(exit_code_of(None), 1);
}

#[test]
fn run_steps() {
    assert!(matches!(run_step(RunEvent::Interrupted), RunAction::KillChild { exit_code: 130 }));
    assert!(matches!(run_step(RunEvent::Disconnected), RunAction::ReportDisconnectAndAwaitChild));
    assert!(matches!(run_step(RunEvent::Sample), RunAction::ObserveSample));
    assert!(matches!(run_step(RunEvent::OtherResponse), RunAction::Wait));
    assert!(matches!(run_step(RunEvent::ChildRunning), RunAction::Wait));
    assert!(matches!(run_step(RunEvent::ChildExited(Some(3))), RunAction::Finish { exit_code: 3 }));
    assert!(matches!(run_step(RunEvent::ChildExited(None)), RunAction::Finish { exit_code: 1 }));
    match run_step(RunEvent::DaemonError { code: 4, message: "source not found: 99".to_string() }) {
        RunAction::Fail(message) => assert_eq!(message, "daemon error 4: source not found: 99"),
        _ => panic!("expected a failure"),
    }
}
