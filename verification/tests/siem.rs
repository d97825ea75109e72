use bouclier_bleu::catalog::Alert;
use bouclier_bleu::fields::{Field, FieldValue};
use bouclier_bleu::heuristics::exec_block::ExecAlert;
use bouclier_bleu::heuristics::rename_entropy::RenameAlert;
use bouclier_bleu::json::to_json;
use bouclier_bleu::siem::{
    emit_siem_event, envelop, envelope, ndjson_line, next_sink_step, SinkEvent, SinkStep, FALLBACKS, LOG_DIR,
    LOG_PATH,
};

#[test]
fn event_is_one_flat_line() {
    let alert = Alert::ExecBlock(ExecAlert { pid: 77, path: "/tmp/x".to_string() });
    assert_eq!(
        emit_siem_event(1_700_000_000_123, "exec_block", &alert),
        "{\"@timestamp\":1700000000123,\"event_source\":\"exec_block\",\"pid\":77,\"path\":\"/tmp/x\"}\n"
    );
}

#[test]
fn event_text_is_valid_json_whatever_the_strings_hold() {
    let path = "/tmp/a\"b\\c\nd\u{1}\u{2028}é";
    let alert = Alert::RenameEntropy(RenameAlert { pid: 1, ppid: 2, full_path: path.to_string() });
    let line = emit_siem_event(5, "rename_entropy", &alert);
    assert_eq!(line.matches('\n').count(), 1);
    assert!(line.ends_with('\n'));
    let parsed: serde_json::Value = serde_json::from_str(&line).unwrap();
    assert_eq!(parsed["@timestamp"], serde_json::Value::from(5u64));
    assert_eq!(parsed["event_source"], serde_json::Value::from("rename_entropy"));
    assert_eq!(parsed["pid"], serde_json::Value::from(1u64));
    assert_eq!(parsed["ppid"], serde_json::Value::from(2u64));
    assert_eq!(parsed["full_path"], serde_json::Value::from(path));
    assert_eq!(parsed.as_object().unwrap().len(), 5);
}

#[test]
fn envelope_comes_first() {
    let alert = Alert::ExecBlock(ExecAlert { pid: 77, path: "/tmp/x".to_string() });
    let names: Vec<String> = envelope(9, "exec_block", &alert).into_iter().map(|f| f.name).collect();
    assert_eq!(names, vec!["@timestamp", "event_source", "pid", "path"]);
}

#[test]
fn any_payload_can_be_enveloped() {
    let payload = vec![
        Field { name: "severity".to_string(), value: FieldValue::Number(3) },
        Field { name: "note".to_string(), value: FieldValue::Text("x".to_string()) },
    ];
    assert_eq!(
        ndjson_line(&to_json(&envelop(9, "dummy_heur", payload))),
        "{\"@timestamp\":9,\"event_source\":\"dummy_heur\",\"severity\":3,\"note\":\"x\"}\n"
    );
    assert_eq!(
        to_json(&envelop(0, "", Vec::new())),
        "{\"@timestamp\":0,\"event_source\":\"\"}"
    );
}

#[test]
fn a_repeated_key_keeps_its_place_and_its_last_value() {
    let fields = vec![
        Field { name: "a".to_string(), value: FieldValue::Number(1) },
        Field { name: "b".to_string(), value: FieldValue::Text("x".to_string()) },
        Field { name: "a".to_string(), value: FieldValue::Number(u64::MAX) },
    ];
    assert_eq!(to_json(&fields), "{\"a\":18446744073709551615,\"b\":\"x\"}");
    assert_eq!(to_json(&Vec::new()), "{}");
}

#[test]
fn every_character_has_its_escape() {
    let json = |text: &str| {
        to_json(&vec![Field { name: "k".to_string(), value: FieldValue::Text(text.to_string()) }])
    };
    assert_eq!(json("\"\\/"), "{\"k\":\"\\\"\\\\/\"}");
    assert_eq!(json("\u{8}\t\n\u{c}\r"), "{\"k\":\"\\b\\t\\n\\f\\r\"}");
    assert_eq!(json("\u{0}\u{1}\u{b}\u{1f}"), "{\"k\":\"\\u0000\\u0001\\u000b\\u001f\"}");
    assert_eq!(json(" \u{7f}\u{2028}é😀"), "{\"k\":\" \u{7f}\u{2028}é😀\"}");
    // The names of fields are escaped like their values.
    let named = vec![Field { name: "a\"\n".to_string(), value: FieldValue::Number(0) }];
    assert_eq!(to_json(&named), "{\"a\\\"\\n\":0}");
}

#[test]
fn no_control_character_gets_into_an_event() {
    let all: String = (0u8..32).map(char::from).collect();
    let alert = Alert::ExecBlock(ExecAlert { pid: 1, path: all });
    let line = emit_siem_event(0, "exec_block", &alert);
    assert_eq!(line.chars().filter(|c| c.is_control()).count(), 1);
    assert!(line.ends_with("}\n"));
}

#[test]
fn a_line_ends_where_the_object_ends() {
    assert_eq!(ndjson_line("{}"), "{}\n");
}

#[test]
fn the_log_is_only_opened_in_a_secure_directory() {
    assert_eq!(LOG_PATH, format!("{}/alerts.json", LOG_DIR));
    assert!(next_sink_step(SinkEvent::Directory(true)) == SinkStep::OpenLog);
    assert!(next_sink_step(SinkEvent::Directory(false)) == SinkStep::OpenFallback);
    assert!(next_sink_step(SinkEvent::Log(true)) == SinkStep::Use);
    assert!(next_sink_step(SinkEvent::Log(false)) == SinkStep::OpenFallback);
    assert!(next_sink_step(SinkEvent::Fallback(true)) == SinkStep::Use);
    assert!(next_sink_step(SinkEvent::Fallback(false)) == SinkStep::Drop);
    assert_eq!(FALLBACKS, ["/tmp/bouclier_fallback.log"]);
}
