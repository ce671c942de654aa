use hud_renderer::error::TelemetryParseError;
use hud_renderer::json::{JsonNumber, JsonValue};
use hud_renderer::lap_timer::{
    format_delta, format_lap_time, format_signed_millis, is_qualifying_session,
    is_race_type_session, is_safety_car, predicted_position, should_predict_position,
    LapTimerController, LapTimerDeltaState, LapTimerDisplay, LapTimerSnapshot,
};
use serde_json::Value;

fn to_json(v: &Value) -> JsonValue {
    match v {
        Value::Null => JsonValue::Null,
        Value::Bool(b) => JsonValue::Bool(*b),
        Value::Number(n) => {
            let f = n.as_f64().unwrap_or(0.0);
            JsonValue::Number(JsonNumber {
                as_u64: n.as_u64(),
                as_i64: n.as_i64(),
                f64_bits: f.to_bits(),
                thousandths: ((f as f32) * 1000.0) as i32,
            })
        }
        Value::String(s) => JsonValue::Str(s.clone()),
        Value::Array(items) => JsonValue::Array(items.iter().map(to_json).collect()),
        Value::Object(map) => {
            JsonValue::Object(map.iter().map(|(k, v)| (k.clone(), to_json(v))).collect())
        }
    }
}

fn parse(text: &str) -> JsonValue {
    to_json(&serde_json::from_str::<Value>(text).expect("valid json"))
}

fn entry_json(
    index: usize,
    position: u8,
    is_player: bool,
    current_lap: u8,
    last: (u32, [i32; 3]),
    best: (u32, [i32; 3]),
    current: (u32, &str, [i32; 3], i32, &str),
) -> String {
    format!(
        r#"{{
            "driver-info": {{ "position": {position}, "is-player": {is_player}, "index": {index} }},
            "lap-info": {{
                "current-lap": {current_lap},
                "last-lap": {{ "lap-time-ms": {}, "sector-status": [{}, {}, {}] }},
                "best-lap": {{ "lap-time-ms": {}, "sector-status": [{}, {}, {}] }},
                "curr-lap": {{
                    "lap-time-ms": {},
                    "driver-status": "{}",
                    "sector-status": [{}, {}, {}],
                    "delta-ms": {},
                    "delta-sc-sec": {}
                }}
            }}
        }}"#,
        last.0,
        last.1[0],
        last.1[1],
        last.1[2],
        best.0,
        best.1[0],
        best.1[1],
        best.1[2],
        current.0,
        current.1,
        current.2[0],
        current.2[1],
        current.2[2],
        current.3,
        current.4,
    )
}

fn document(session_type: &str, safety_car: &str, entries: &[String]) -> JsonValue {
    parse(&format!(
        r#"{{
            "event-type": "{session_type}",
            "session-uid": 42,
            "safety-car-status": "{safety_car}",
            "is-spectating": false,
            "table-entries": [{}]
        }}"#,
        entries.join(",")
    ))
}

fn telemetry_value(session_type: &str, driver_status: &str, delta_ms: i32) -> JsonValue {
    document(
        session_type,
        "NO_SAFETY_CAR",
        &[
            entry_json(
                7,
                2,
                true,
                5,
                (91234, [1, 1, 0]),
                (90800, [2, 1, 1]),
                (23123, driver_status, [1, -2, -2], delta_ms, "null"),
            ),
            entry_json(
                3,
                1,
                false,
                5,
                (90720, [1, 2, 1]),
                (90720, [1, 2, 1]),
                (25000, "FLYING_LAP", [1, -2, -2], 120, "null"),
            ),
        ],
    )
}

#[test]
fn parses_reference_driver_from_player_flag() {
    let snapshot = LapTimerSnapshot::from_telemetry_info_value(&telemetry_value(
        "Qualifying",
        "FLYING_LAP",
        -150,
    ))
    .expect("parse telemetry");

    assert_eq!(snapshot.ref_driver_index, 7);
    assert_eq!(snapshot.table_entries.len(), 2);
    assert_eq!(snapshot.reference_entry().expect("ref").position, Some(2));
}

#[test]
fn controller_formats_quali_display_and_predicted_position() {
    let snapshot = LapTimerSnapshot::from_telemetry_info_value(&telemetry_value(
        "Qualifying",
        "FLYING_LAP",
        -150,
    ))
    .expect("parse telemetry");
    let mut controller = LapTimerController::new();
    let display = controller.update(&snapshot, 0).expect("display");

    assert_eq!(display.current_time, "00:23.123");
    assert_eq!(display.last_time, "01:31.234");
    assert_eq!(display.best_time, "01:30.800");
    assert_eq!(display.delta_time, "-0.150");
    assert_eq!(display.delta_state, LapTimerDeltaState::Good);
    assert_eq!(display.estimated_time, "01:30.650 | (P1)");
}

#[test]
fn controller_shows_safety_car_status_and_uses_sc_delta() {
    let value = document(
        "Race",
        "VIRTUAL_SAFETY_CAR",
        &[entry_json(
            7,
            1,
            true,
            12,
            (91234, [1, 1, 1]),
            (90500, [2, 1, 1]),
            (11111, "ON_TRACK", [1, -2, -2], -250, "0.321"),
        )],
    );
    let snapshot = LapTimerSnapshot::from_telemetry_info_value(&value).expect("parse");
    let mut controller = LapTimerController::new();
    let display = controller.update(&snapshot, 0).expect("display");

    assert_eq!(display.current_time, "VSC");
    assert_eq!(display.delta_time, "+0.321");
    assert_eq!(display.delta_state, LapTimerDeltaState::Good);
    assert_eq!(display.estimated_time, "01:30.821");
}

#[test]
fn controller_uses_last_lap_sector_bar_for_five_seconds_after_lap_change() {
    let value = telemetry_value("Race", "ON_TRACK", 120);
    let snapshot = LapTimerSnapshot::from_telemetry_info_value(&value).expect("parse");
    let mut controller = LapTimerController::new();

    let _ = controller.update(&snapshot, 0).expect("first display");

    let changed_value = document(
        "Race",
        "NO_SAFETY_CAR",
        &[entry_json(
            7,
            2,
            true,
            6,
            (90321, [2, 1, 1]),
            (90321, [2, 1, 1]),
            (1234, "ON_TRACK", [0, -2, -2], 40, "null"),
        )],
    );
    let changed_snapshot =
        LapTimerSnapshot::from_telemetry_info_value(&changed_value).expect("parse changed");

    let display = controller
        .update(&changed_snapshot, 1_000)
        .expect("changed");
    assert_eq!(display.current_sector_status, [2, 1, 1]);

    let display = controller
        .update(&changed_snapshot, 6_001)
        .expect("expired");
    assert_eq!(display.current_sector_status, [0, -2, -2]);
}

#[test]
fn sector_bar_expires_exactly_five_seconds_after_the_change() {
    let first = LapTimerSnapshot::from_telemetry_info_value(&telemetry_value(
        "Race", "ON_TRACK", 120,
    ))
    .expect("parse");
    let changed = document(
        "Race",
        "NO_SAFETY_CAR",
        &[entry_json(
            7,
            2,
            true,
            6,
            (90321, [2, 2, 2]),
            (90321, [2, 1, 1]),
            (1234, "ON_TRACK", [0, -2, -2], 40, "null"),
        )],
    );
    let changed = LapTimerSnapshot::from_telemetry_info_value(&changed).expect("parse");
    let mut controller = LapTimerController::new();
    controller.update(&first, 0).expect("first");
    let shown = controller.update(&changed, 1_000).expect("change");
    assert_eq!(shown.current_sector_status, [2, 2, 2]);
    let still = controller.update(&changed, 5_999).expect("still");
    assert_eq!(still.current_sector_status, [2, 2, 2]);
    let gone = controller.update(&changed, 6_000).expect("gone");
    assert_eq!(gone.current_sector_status, [0, -2, -2]);
}

#[test]
fn new_session_forgets_the_previous_lap() {
    let first = LapTimerSnapshot::from_telemetry_info_value(&telemetry_value(
        "Race", "ON_TRACK", 120,
    ))
    .expect("parse");
    let mut other = LapTimerSnapshot::from_telemetry_info_value(&document(
        "Race",
        "NO_SAFETY_CAR",
        &[entry_json(
            7,
            2,
            true,
            9,
            (90321, [2, 2, 2]),
            (90321, [2, 1, 1]),
            (1234, "ON_TRACK", [0, -2, -2], 40, "null"),
        )],
    ))
    .expect("parse");
    other.session_uid = 43;
    let mut controller = LapTimerController::new();
    controller.update(&first, 0).expect("first");
    let display = controller.update(&other, 10).expect("other session");
    assert_eq!(display.current_sector_status, [0, -2, -2]);
}

#[test]
fn repeated_update_gives_the_same_display() {
    let snapshot = LapTimerSnapshot::from_telemetry_info_value(&telemetry_value(
        "Qualifying",
        "FLYING_LAP",
        -150,
    ))
    .expect("parse");
    let mut controller = LapTimerController::default();
    let a = controller.update(&snapshot, 100).expect("a");
    let b = controller.update(&snapshot, 100).expect("b");
    assert_eq!(a, b);
}

#[test]
fn missing_reference_driver_is_refused() {
    let mut snapshot = LapTimerSnapshot::from_telemetry_info_value(&telemetry_value(
        "Race", "ON_TRACK", 120,
    ))
    .expect("parse");
    snapshot.ref_driver_index = 99;
    let mut controller = LapTimerController::new();
    assert_eq!(
        controller.update(&snapshot, 0),
        Err(TelemetryParseError::InvalidField("table-entries"))
    );
    assert_eq!(
        snapshot.reference_entry(),
        Err(TelemetryParseError::InvalidField("table-entries"))
    );
}

#[test]
fn parse_errors_name_the_missing_field() {
    let no_uid = parse(r#"{ "table-entries": [] }"#);
    assert_eq!(
        LapTimerSnapshot::from_telemetry_info_value(&no_uid),
        Err(TelemetryParseError::MissingField("session-uid"))
    );
    let no_table = parse(r#"{ "session-uid": 1, "table-entries": 5 }"#);
    assert_eq!(
        LapTimerSnapshot::from_telemetry_info_value(&no_table),
        Err(TelemetryParseError::MissingField("table-entries"))
    );
    let no_lap_info = parse(r#"{ "session-uid": 1, "table-entries": [ { "driver-info": {} } ] }"#);
    assert_eq!(
        LapTimerSnapshot::from_telemetry_info_value(&no_lap_info),
        Err(TelemetryParseError::MissingField("lap-info"))
    );
    let no_index = parse(
        r#"{ "session-uid": 1, "table-entries": [ { "driver-info": {}, "lap-info": { "last-lap": {}, "best-lap": {}, "curr-lap": {} } } ] }"#,
    );
    assert_eq!(
        LapTimerSnapshot::from_telemetry_info_value(&no_index),
        Err(TelemetryParseError::MissingField("index"))
    );
    let no_player = parse(
        r#"{ "session-uid": 1, "table-entries": [ { "driver-info": { "index": 3 }, "lap-info": { "last-lap": {}, "best-lap": {}, "curr-lap": {} } } ] }"#,
    );
    assert_eq!(
        LapTimerSnapshot::from_telemetry_info_value(&no_player),
        Err(TelemetryParseError::InvalidField("table-entries"))
    );
    let spectating_nobody = parse(
        r#"{ "session-uid": 1, "is-spectating": true, "table-entries": [] }"#,
    );
    assert_eq!(
        LapTimerSnapshot::from_telemetry_info_value(&spectating_nobody),
        Err(TelemetryParseError::MissingField("spectator-car-index"))
    );
    let spectating_absent = parse(
        r#"{ "session-uid": 1, "is-spectating": true, "spectator-car-index": 4, "table-entries": [] }"#,
    );
    assert_eq!(
        LapTimerSnapshot::from_telemetry_info_value(&spectating_absent),
        Err(TelemetryParseError::InvalidField("spectator-car-index"))
    );
}

#[test]
fn parse_reads_defaults_for_optional_fields() {
    let value = parse(
        r#"{ "session-uid": 1, "table-entries": [ { "driver-info": { "index": 3, "is-player": true, "position": 300 },
             "lap-info": { "last-lap": { "sector-status": [1, 2] }, "best-lap": { "sector-status": [1, "x", 9000000000] }, "curr-lap": {} } } ] }"#,
    );
    let snapshot = LapTimerSnapshot::from_telemetry_info_value(&value).expect("parse");
    assert_eq!(snapshot.session_type, "None");
    assert_eq!(snapshot.safety_car_status, "");
    let e = &snapshot.table_entries[0];
    assert_eq!(e.position, None);
    assert_eq!(e.last_lap.sector_status, [-2, -2, -2]);
    assert_eq!(e.best_lap.sector_status, [1, -2, -2]);
    assert_eq!(e.current_lap.driver_status, "");
    assert_eq!(e.current_lap.delta_sc_sec, None);
}

#[test]
fn spectator_is_the_reference_when_spectating() {
    let value = parse(&format!(
        r#"{{ "session-uid": 1, "is-spectating": true, "spectator-car-index": 3, "table-entries": [{}, {}] }}"#,
        entry_json(7, 2, true, 5, (1, [1, 1, 1]), (1, [1, 1, 1]), (1, "ON_TRACK", [1, 1, 1], 0, "null")),
        entry_json(3, 1, false, 5, (1, [1, 1, 1]), (1, [1, 1, 1]), (1, "ON_TRACK", [1, 1, 1], 0, "null")),
    ));
    let snapshot = LapTimerSnapshot::from_telemetry_info_value(&value).expect("parse");
    assert_eq!(snapshot.ref_driver_index, 3);
}

#[test]
fn lap_times_and_deltas_are_formatted() {
    assert_eq!(format_lap_time(None), "--:--.---");
    assert_eq!(format_lap_time(Some(0)), "00:00.000");
    assert_eq!(format_lap_time(Some(61_005)), "01:01.005");
    assert_eq!(format_lap_time(Some(6_000_000)), "100:00.000");
    assert_eq!(format_lap_time(Some(u32::MAX)), "71582:47.295");
    assert_eq!(format_delta(None), "---");
    assert_eq!(format_delta(Some(0)), "+0.000");
    assert_eq!(format_delta(Some(-150)), "-0.150");
    assert_eq!(format_delta(Some(12_345)), "+12.345");
    assert_eq!(format_signed_millis(i32::MIN), "-2147483.648");
    assert_eq!(format_signed_millis(i32::MAX), "+2147483.647");
}

#[test]
fn session_rules() {
    assert!(is_race_type_session("Race"));
    assert!(is_race_type_session("Sprint Race 2"));
    assert!(!is_race_type_session("race"));
    assert!(is_qualifying_session("Short Qualifying"));
    assert!(is_qualifying_session("Sprint Shootout 1"));
    assert!(should_predict_position("Practice"));
    assert!(!should_predict_position("Practice 1"));
    assert!(is_safety_car("FULL_SAFETY_CAR"));
    assert!(is_safety_car("VIRTUAL_SAFETY_CAR"));
    assert!(!is_safety_car("NO_SAFETY_CAR"));
}

#[test]
fn predicted_position_counts_drivers_no_slower() {
    let snapshot = LapTimerSnapshot::from_telemetry_info_value(&document(
        "Qualifying",
        "NO_SAFETY_CAR",
        &[
            entry_json(7, 5, true, 3, (1, [1, 1, 1]), (91000, [1, 1, 1]), (1, "FLYING_LAP", [1, 1, 1], -10, "null")),
            entry_json(1, 1, false, 3, (1, [1, 1, 1]), (90000, [1, 1, 1]), (1, "FLYING_LAP", [1, 1, 1], 0, "null")),
            entry_json(2, 2, false, 3, (1, [1, 1, 1]), (90500, [1, 1, 1]), (1, "FLYING_LAP", [1, 1, 1], 0, "null")),
            entry_json(3, 3, false, 3, (1, [1, 1, 1]), (90990, [1, 1, 1]), (1, "FLYING_LAP", [1, 1, 1], 0, "null")),
        ],
    ))
    .expect("parse");
    assert_eq!(predicted_position(&snapshot, 90990, -10), Some(4));
    assert_eq!(predicted_position(&snapshot, 90989, -10), Some(3));
    assert_eq!(predicted_position(&snapshot, 80000, 0), Some(1));
    assert_eq!(predicted_position(&snapshot, 80000, 5), Some(5));
    let mut alone = snapshot;
    alone.table_entries.truncate(1);
    assert_eq!(predicted_position(&alone, 80000, -5), Some(1));
}

#[test]
fn empty_display_shows_placeholders() {
    let d = LapTimerDisplay::empty();
    assert_eq!(d.current_time, "--:--.---");
    assert_eq!(d.delta_time, "---");
    assert_eq!(d.estimated_time, "--:--.---");
    assert_eq!(d.current_sector_status, [-2, -2, -2]);
    assert_eq!(d.delta_state, LapTimerDeltaState::Neutral);
}

#[test]
fn delta_state_flips_under_safety_car_and_status_words_show_outside_races() {
    let value = document(
        "Qualifying",
        "FULL_SAFETY_CAR",
        &[entry_json(
            7,
            1,
            true,
            1,
            (1, [1, 1, 1]),
            (90000, [1, 1, 1]),
            (500, "IN_GARAGE", [1, 1, 1], -100, "-0.25"),
        )],
    );
    let snapshot = LapTimerSnapshot::from_telemetry_info_value(&value).expect("parse");
    let display = LapTimerController::new().update(&snapshot, 0).expect("display");
    assert_eq!(display.current_time, "IN_GARAGE");
    assert_eq!(display.delta_time, "-0.250");
    assert_eq!(display.delta_state, LapTimerDeltaState::Bad);
    assert_eq!(display.estimated_time, "01:29.750 | (P1)");
}

#[test]
fn parse_error_messages() {
    assert_eq!(
        TelemetryParseError::MissingField("session-uid").message(),
        "missing telemetry field 'session-uid'"
    );
    assert_eq!(
        TelemetryParseError::InvalidField("ref-index").message(),
        "invalid telemetry field 'ref-index'"
    );
    assert_eq!(
        TelemetryParseError::MissingAnyField(&["a", "b", "c"]).message(),
        "missing telemetry field, expected one of: a, b, c"
    );
    assert_eq!(
        TelemetryParseError::MissingAnyField(&[]).message(),
        "missing telemetry field, expected one of: "
    );
}
