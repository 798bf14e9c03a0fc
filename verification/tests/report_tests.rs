use dynamic_island::json::{JsonNumber, JsonValue};
use dynamic_island::printer::{PrintState, PrinterConfig};
use dynamic_island::report::{connection_settings, next_poll_delay_secs, read_report, ReportState};

fn integer(v: i64) -> JsonValue {
    JsonValue::Number(JsonNumber { integer: Some(v), float_bits: Some((v as f64).to_bits()) })
}

fn float(v: f64) -> JsonValue {
    JsonValue::Number(JsonNumber { integer: None, float_bits: Some(v.to_bits()) })
}

fn text(s: &str) -> JsonValue {
    JsonValue::Text(s.to_string())
}

fn report(members: Vec<(&str, JsonValue)>) -> JsonValue {
    JsonValue::Object(vec![(
        "print".to_string(),
        JsonValue::Object(members.into_iter().map(|(k, v)| (k.to_string(), v)).collect()),
    )])
}

#[test]
fn full_report_gives_status() {
    let mut st = ReportState::new();
    let name = "1号".to_string();
    let s = st
        .handle_report(
            &name,
            Some(report(vec![
                ("gcode_state", text("RUNNING")),
                ("mc_percent", integer(42)),
                ("mc_remaining_time", integer(17)),
                ("nozzle_temper", float(219.5)),
                ("bed_temper", integer(60)),
                ("layer_num", integer(12)),
                ("total_layer_num", integer(200)),
            ])),
        )
        .unwrap();
    assert_eq!(s.name, "1号");
    assert_eq!(s.status, PrintState::Printing);
    assert_eq!(s.progress, 42);
    assert_eq!(s.remaining_time, 17);
    assert_eq!(f64::from_bits(s.nozzle_temp_bits), 219.5);
    assert_eq!(f64::from_bits(s.bed_temp_bits), 60.0);
    assert_eq!(s.layer_num, 12);
    assert_eq!(s.total_layers, 200);
}

#[test]
fn later_report_keeps_unreported_fields() {
    let mut st = ReportState::new();
    let name = "p".to_string();
    st.handle_report(
        &name,
        Some(report(vec![("gcode_state", text("RUNNING")), ("mc_percent", integer(10))])),
    );
    let s = st.handle_report(&name, Some(report(vec![("mc_percent", integer(11))]))).unwrap();
    assert_eq!(s.status, PrintState::Printing);
    assert_eq!(s.progress, 11);
    let s = st.handle_report(&name, Some(report(vec![("gcode_state", text("FINISH"))]))).unwrap();
    assert_eq!(s.status, PrintState::Completed);
    assert_eq!(s.progress, 11);
}

#[test]
fn gcode_states_map_to_print_states() {
    let cases = [
        ("RUNNING", PrintState::Printing),
        ("PAUSE", PrintState::Paused),
        ("FINISH", PrintState::Completed),
        ("FAILED", PrintState::Failed),
        ("IDLE", PrintState::Idle),
        ("PREPARE", PrintState::Unknown),
        ("running", PrintState::Unknown),
    ];
    for (g, expected) in cases {
        let mut st = ReportState::new();
        let s = st.handle_report(&"x".to_string(), Some(report(vec![("gcode_state", text(g))]))).unwrap();
        assert_eq!(s.status, expected);
    }
    let mut st = ReportState::new();
    let s = st.handle_report(&"x".to_string(), Some(report(vec![("gcode_state", integer(3))]))).unwrap();
    assert_eq!(s.status, PrintState::Unknown);
}

#[test]
fn unreadable_report_changes_nothing() {
    let mut st = ReportState::new();
    let name = "p".to_string();
    st.handle_report(&name, Some(report(vec![("mc_percent", integer(5))])));
    assert!(st.handle_report(&name, None).is_none());
    let s = st.status(&name);
    assert_eq!(s.progress, 5);
}

#[test]
fn report_without_print_object_still_gives_status() {
    let mut st = ReportState::new();
    let name = "p".to_string();
    st.handle_report(&name, Some(report(vec![("mc_percent", integer(5))])));
    let s = st.handle_report(&name, Some(integer(123))).unwrap();
    assert_eq!(s.progress, 5);
    let s = st
        .handle_report(
            &name,
            Some(JsonValue::Object(vec![("print".to_string(), text("not an object"))])),
        )
        .unwrap();
    assert_eq!(s.progress, 5);
    let s = st
        .handle_report(
            &name,
            Some(JsonValue::Object(vec![("info".to_string(), JsonValue::Object(vec![]))])),
        )
        .unwrap();
    assert_eq!(s.progress, 5);
    assert_eq!(s.status, PrintState::Unknown);
}

#[test]
fn non_integer_fields_read_as_zero_and_ints_are_cut_to_32_bits() {
    let mut st = ReportState::new();
    let s = st
        .handle_report(
            &"p".to_string(),
            Some(report(vec![
                ("mc_percent", float(42.5)),
                ("mc_remaining_time", integer(4_294_967_297)),
                ("nozzle_temper", text("hot")),
                ("layer_num", JsonValue::Null),
                ("total_layer_num", JsonValue::Bool(true)),
            ])),
        )
        .unwrap();
    assert_eq!(s.progress, 0);
    assert_eq!(s.remaining_time, 1);
    assert_eq!(s.nozzle_temp_bits, 0);
    assert_eq!(s.layer_num, 0);
    assert_eq!(s.total_layers, 0);
}

#[test]
fn connection_settings_for_config() {
    let c = PrinterConfig {
        name: "1号".to_string(),
        ip_address: "192.168.0.109".to_string(),
        access_code: "82d8f3a6".to_string(),
        serial: "01P00C5C3912189".to_string(),
    };
    let s = connection_settings(&c);
    assert_eq!(s.client_id, "01P00C5C3912189");
    assert_eq!(s.host, "192.168.0.109");
    assert_eq!(s.port, 8883);
    assert_eq!(s.username, "bblp");
    assert_eq!(s.password, "82d8f3a6");
    assert_eq!(s.keep_alive_secs, 30);
    assert_eq!(s.report_topic, "device/01P00C5C3912189/report");
    assert_eq!(s.request_topic, "device/01P00C5C3912189/request");
}

#[test]
fn poll_delays() {
    assert_eq!(next_poll_delay_secs(0), 3);
    assert_eq!(next_poll_delay_secs(2), 5);
}

#[test]
fn payload_is_read_as_json() {
    let mut st = ReportState::new();
    let name = "1号".to_string();
    let payload = br#"{"print":{"gcode_state":"RUNNING","mc_percent":42,"mc_remaining_time":17,"nozzle_temper":219.5,"bed_temper":60,"layer_num":12,"total_layer_num":200,"extra":[1,{"a":null}]}}"#;
    let s = st.handle_payload(&name, payload).unwrap();
    assert_eq!(s.status, PrintState::Printing);
    assert_eq!(s.progress, 42);
    assert_eq!(s.remaining_time, 17);
    assert_eq!(f64::from_bits(s.nozzle_temp_bits), 219.5);
    assert_eq!(f64::from_bits(s.bed_temp_bits), 60.0);
    assert_eq!(s.layer_num, 12);
    assert_eq!(s.total_layers, 200);
}

#[test]
fn payload_numbers_follow_as_i64_and_as_f64() {
    let mut st = ReportState::new();
    let name = "p".to_string();
    let s = st
        .handle_payload(
            &name,
            br#"{"print":{"mc_percent":42.0,"mc_remaining_time":-3,"layer_num":18446744073709551615,"nozzle_temper":-1}}"#,
        )
        .unwrap();
    assert_eq!(s.progress, 0);
    assert_eq!(s.remaining_time, -3);
    assert_eq!(s.layer_num, 0);
    assert_eq!(f64::from_bits(s.nozzle_temp_bits), -1.0);
    match read_report(b"18446744073709551615") {
        Some(JsonValue::Number(n)) => {
            assert_eq!(n.integer, None);
            assert_eq!(n.float_bits, Some(18446744073709551615u64 as f64).map(|x| x.to_bits()));
        }
        _ => panic!("expected a number"),
    }
}

#[test]
fn unreadable_payloads_change_nothing() {
    let mut st = ReportState::new();
    let name = "p".to_string();
    st.handle_payload(&name, br#"{"print":{"mc_percent":5}}"#);
    assert!(st.handle_payload(&name, b"\xff\xfe{}").is_none());
    assert!(st.handle_payload(&name, b"{\"print\":").is_none());
    assert!(st.handle_payload(&name, b"").is_none());
    assert!(read_report(b"not json").is_none());
    let s = st.handle_payload(&name, b"[1,2]").unwrap();
    assert_eq!(s.progress, 5);
}
