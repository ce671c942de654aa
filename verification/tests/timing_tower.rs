use hud_renderer::error::TelemetryParseError;
use hud_renderer::json::{JsonNumber, JsonValue};
use hud_renderer::timing_tower::{
    adjacent_positions, format_session_info, is_tt_session, max_tyre_wear, sort_by_position,
    TimingTowerDisplay, TimingTowerSnapshot,
};
use serde_json::Value;

fn to_json(v: &Value) -> JsonValue {
    match v {
        Value::Null => JsonValue::Null,
        Value::Bool(b) => JsonValue::Bool(*b),
        Value::Number(n) => {
            let f = n.as_f64().unwrap_or(0.0);
            JsonValue::Number(JsonNumber {
                as_u64: n.as_u64(),
                as_i64: n.as_i64(),
                f64_bits: f.to_bits(),
                thousandths: ((f as f32) * 1000.0) as i32,
            })
        }
        Value::String(s) => JsonValue::Str(s.clone()),
        Value::Array(items) => JsonValue::Array(items.iter().map(to_json).collect()),
        Value::Object(map) => {
            JsonValue::Object(map.iter().map(|(k, v)| (k.clone(), to_json(v))).collect())
        }
    }
}

fn parse(text: &str) -> JsonValue {
    to_json(&serde_json::from_str::<Value>(text).expect("valid json"))
}

fn table_entry(
    index: usize,
    position: u8,
    is_player: bool,
    name: &str,
    delta_to_car_in_front: i32,
    best_lap_ms: Option<u32>,
) -> String {
    let best = match best_lap_ms {
        Some(ms) => ms.to_string(),
        None => "null".to_string(),
    };
    format!(
        r#"{{
            "driver-info": {{
                "index": {index},
                "position": {position},
                "is-player": {is_player},
                "name": "{name}",
                "team": "Ferrari",
                "telemetry-setting": "Public",
                "drs": {},
                "is-pitting": false,
                "dnf-status": null
            }},
            "delta-info": {{ "delta-to-car-in-front": {delta_to_car_in_front} }},
            "lap-info": {{ "best-lap": {{ "lap-time-ms": {best} }} }},
            "tyre-info": {{
                "visual-tyre-compound": "Soft",
                "tyre-age": 5,
                "current-wear": [0.12, 0.18, 0.14, 0.16]
            }},
            "ers-info": {{ "ers-percent-float": 62.0, "ers-mode": "Hotlap" }},
            "warns-pens-info": {{
                "corner-cutting-warnings": 1,
                "num-dt": 0,
                "num-sg": 0,
                "time-penalties": 0
            }}
        }}"#,
        position % 2 == 0
    )
}

fn document(head: &str, entries: &[String]) -> JsonValue {
    parse(&format!(r#"{{ {head}, "table-entries": [{}] }}"#, entries.join(",")))
}

#[test]
fn race_display_uses_player_reference_and_relative_gaps() {
    let value = document(
        r#""event-type": "Race", "current-lap": 12, "total-laps": 57, "session-time-left": 1800, "is-spectating": false"#,
        &[
            table_entry(3, 1, false, "Leader", 0, Some(90_000)),
            table_entry(7, 2, true, "Player", 820, Some(90_400)),
            table_entry(4, 3, false, "Behind", 500, Some(90_950)),
        ],
    );

    let snapshot = TimingTowerSnapshot::from_telemetry_info_value(&value).expect("parse");
    let display = snapshot.display_state(1);

    assert_eq!(snapshot.ref_driver_index, 7);
    assert_eq!(display.session_info, "RACE    |    LAP 12 / 57");
    assert_eq!(display.rows.len(), 3);
    assert_eq!(display.rows[0].relative_delta_ms, Some(-820));
    assert_eq!(display.rows[1].relative_delta_ms, Some(0));
    assert_eq!(display.rows[2].relative_delta_ms, Some(500));
}

#[test]
fn non_race_display_uses_best_lap_deltas() {
    let value = document(
        r#""event-type": "Qualifying", "current-lap": 5, "total-laps": 0, "session-time-left": 321, "is-spectating": false"#,
        &[
            table_entry(3, 1, false, "Fast", 0, Some(89_800)),
            table_entry(7, 2, true, "Player", 0, Some(90_000)),
            table_entry(4, 3, false, "Slow", 0, Some(90_550)),
        ],
    );

    let snapshot = TimingTowerSnapshot::from_telemetry_info_value(&value).expect("parse");
    let display = snapshot.display_state(1);

    assert_eq!(display.session_info, "QUALIFYING    |    TIME: 05:21");
    assert_eq!(display.rows[0].relative_delta_ms, Some(-200));
    assert_eq!(display.rows[1].relative_delta_ms, Some(0));
    assert_eq!(display.rows[2].relative_delta_ms, Some(550));
}

#[test]
fn spectating_uses_spectator_car_index_as_reference() {
    let value = document(
        r#""event-type": "Race", "current-lap": 1, "total-laps": 5, "session-time-left": 300, "is-spectating": true, "spectator-car-index": 4"#,
        &[
            table_entry(3, 1, false, "Leader", 0, Some(90_000)),
            table_entry(4, 2, false, "Watched", 900, Some(90_800)),
            table_entry(7, 3, true, "Player", 700, Some(91_200)),
        ],
    );

    let snapshot = TimingTowerSnapshot::from_telemetry_info_value(&value).expect("parse");
    let display = snapshot.display_state(1);

    assert_eq!(snapshot.ref_driver_index, 4);
    assert_eq!(display.rows[0].relative_delta_ms, Some(-900));
    assert_eq!(display.rows[1].relative_delta_ms, Some(0));
    assert_eq!(display.rows[2].relative_delta_ms, Some(700));
}

#[test]
fn tolerates_empty_payload_before_telemetry_arrives() {
    let value = parse(
        r#"{
            "event-type": null,
            "current-lap": null,
            "total-laps": null,
            "session-time-left": null,
            "is-spectating": false,
            "table-entries": []
        }"#,
    );

    let snapshot = TimingTowerSnapshot::from_telemetry_info_value(&value).expect("parse");
    let display = snapshot.display_state(2);

    assert_eq!(snapshot.ref_driver_index, 0);
    assert!(snapshot.table_entries.is_empty());
    assert_eq!(display, TimingTowerDisplay::empty());
}

#[test]
fn time_trial_returns_unsupported_error_display() {
    let value = document(
        r#""event-type": "Time Trial", "current-lap": 1, "total-laps": 0, "session-time-left": 600, "is-spectating": false"#,
        &[table_entry(7, 1, true, "Player", 0, Some(90_000))],
    );

    let snapshot = TimingTowerSnapshot::from_telemetry_info_value(&value).expect("parse");
    let display = snapshot.display_state(2);

    assert_eq!(display.session_info, "-- / --");
    assert_eq!(
        display.error_message.as_deref(),
        Some("TIME TRIAL NOT YET SUPPORTED")
    );
    assert!(display.rows.is_empty());
}

#[test]
fn entries_are_sorted_by_position_keeping_ties_in_order() {
    let value = document(
        r#""event-type": "Race""#,
        &[
            table_entry(1, 3, false, "C", 0, None),
            table_entry(2, 1, true, "A", 0, None),
            table_entry(3, 2, false, "B1", 0, None),
            table_entry(4, 2, false, "B2", 0, None),
        ],
    );
    let snapshot = TimingTowerSnapshot::from_telemetry_info_value(&value).expect("parse");
    let names: Vec<&str> = snapshot.table_entries.iter().map(|e| e.name.as_str()).collect();
    assert_eq!(names, vec!["A", "B1", "B2", "C"]);
    let sorted = sort_by_position(snapshot.table_entries.clone());
    assert_eq!(sorted, snapshot.table_entries);
}

#[test]
fn reference_falls_back_to_the_leader() {
    let value = document(
        r#""event-type": "Race", "is-spectating": true, "spectator-car-index": 99"#,
        &[
            table_entry(5, 2, false, "Second", 0, None),
            table_entry(6, 1, false, "First", 0, None),
        ],
    );
    let snapshot = TimingTowerSnapshot::from_telemetry_info_value(&value).expect("parse");
    assert_eq!(snapshot.ref_driver_index, 6);
    let value = document(
        r#""event-type": "Race""#,
        &[table_entry(5, 2, false, "Second", 0, None), table_entry(6, 1, false, "First", 0, None)],
    );
    let snapshot = TimingTowerSnapshot::from_telemetry_info_value(&value).expect("parse");
    assert_eq!(snapshot.ref_driver_index, 6);
}

#[test]
fn entry_fields_are_read_with_defaults() {
    let value = parse(
        r#"{ "table-entries": [ {
            "driver-info": { "index": 2, "position": 1, "is_pitting": true, "dnf-status": "" },
            "delta-info": {},
            "tyre-info": { "current-wear": { "fl": 0.5, "fr": 0.75, "rl": 0.25 } },
            "ers-info": {},
            "warns-pens-info": { "num-dt": 1, "num-sg": 2, "time-penalties": 5 },
            "lap-info": {}
        } ] }"#,
    );
    let snapshot = TimingTowerSnapshot::from_telemetry_info_value(&value).expect("parse");
    let e = &snapshot.table_entries[0];
    assert_eq!(e.name, "UNKNOWN");
    assert_eq!(e.team, "UNKNOWN");
    assert!(!e.telemetry_public);
    assert!(e.is_pitting);
    assert_eq!(e.dnf_status, None);
    assert_eq!(e.delta_to_car_in_front_ms, 0);
    assert_eq!(e.best_lap_time_ms, None);
    assert_eq!(e.visual_tyre_compound, "Unknown");
    assert_eq!(e.tyre_age_laps, 0);
    assert_eq!(e.max_tyre_wear_f64_bits, Some(0.75f64.to_bits()));
    assert_eq!(e.ers_percent_f64_bits, None);
    assert_eq!(e.ers_mode, "None");
    assert_eq!((e.num_dt, e.num_sg, e.time_penalties_sec, e.corner_cutting_warnings), (1, 2, 5, 0));
    assert_eq!(snapshot.session_type, "None");
    assert_eq!(snapshot.ref_driver_index, 2);
}

#[test]
fn missing_entry_sections_are_refused_in_order() {
    let value = parse(r#"{ "table-entries": [ { "driver-info": {}, "tyre-info": {} } ] }"#);
    assert_eq!(
        TimingTowerSnapshot::from_telemetry_info_value(&value),
        Err(TelemetryParseError::MissingField("delta-info"))
    );
    let value = parse(
        r#"{ "table-entries": [ { "driver-info": { "index": 1 }, "delta-info": {}, "tyre-info": {}, "ers-info": {}, "warns-pens-info": {}, "lap-info": {} } ] }"#,
    );
    assert_eq!(
        TimingTowerSnapshot::from_telemetry_info_value(&value),
        Err(TelemetryParseError::MissingField("position"))
    );
}

#[test]
fn tyre_wear_takes_the_largest_reading() {
    let wear = parse(r#"[0.12, -3, "x", 0.18, 0.14]"#);
    assert_eq!(max_tyre_wear(Some(&wear)), Some(0.18f64.to_bits()));
    let none = parse(r#"["x"]"#);
    assert_eq!(max_tyre_wear(Some(&none)), None);
    let negative = parse(r#"[-0.5, -0.25]"#);
    assert_eq!(max_tyre_wear(Some(&negative)), Some((-0.25f64).to_bits()));
    assert_eq!(max_tyre_wear(None), None);
    assert_eq!(max_tyre_wear(Some(&parse("3"))), None);
}

#[test]
fn window_shifts_to_stay_within_the_field() {
    assert_eq!(adjacent_positions(0, 5, 1), None);
    assert_eq!(adjacent_positions(6, 5, 1), None);
    assert_eq!(adjacent_positions(3, 10, 2), Some((1, 5)));
    assert_eq!(adjacent_positions(2, 10, 2), Some((1, 5)));
    assert_eq!(adjacent_positions(1, 5, 2), Some((1, 4)));
    assert_eq!(adjacent_positions(5, 20, 2), Some((3, 7)));
    assert_eq!(adjacent_positions(19, 20, 2), Some((16, 20)));
    assert_eq!(adjacent_positions(3, 4, 2), Some((1, 4)));
}

#[test]
fn header_and_session_rules() {
    assert_eq!(format_session_info("RACE", true, None, Some(3), None), "RACE    |    LAP 0 / 3");
    assert_eq!(format_session_info("P1", false, None, None, Some(3599)), "P1    |    TIME: 59:59");
    assert_eq!(format_session_info("P1", false, None, None, Some(7200)), "P1    |    TIME: 120:00");
    assert!(is_tt_session("Time Trial"));
    assert!(!is_tt_session("time trial"));
}

#[test]
fn race_gaps_add_up_across_the_window() {
    let value = document(
        r#""event-type": "Race", "current-lap": 3, "total-laps": 10"#,
        &[
            table_entry(1, 1, false, "P1", 0, None),
            table_entry(2, 2, false, "P2", 300, None),
            table_entry(3, 3, false, "P3", 400, None),
            table_entry(4, 4, true, "P4", 500, None),
            table_entry(5, 5, false, "P5", 600, None),
            table_entry(6, 6, false, "P6", 700, None),
        ],
    );
    let snapshot = TimingTowerSnapshot::from_telemetry_info_value(&value).expect("parse");
    assert!(snapshot.display_arithmetic_fits(2));
    let display = snapshot.display_state(2);
    let gaps: Vec<Option<i32>> = display.rows.iter().map(|r| r.relative_delta_ms).collect();
    assert_eq!(gaps, vec![Some(-900), Some(-500), Some(0), Some(600), Some(1300)]);
    assert_eq!(display.session_info, "RACE    |    LAP 3 / 10");
}

#[test]
fn overflowing_race_gaps_are_detected() {
    let value = document(
        r#""event-type": "Race""#,
        &[
            table_entry(1, 1, false, "P1", 0, None),
            table_entry(2, 2, false, "P2", 2_000_000_000, None),
            table_entry(3, 3, true, "P3", 2_000_000_000, None),
        ],
    );
    let snapshot = TimingTowerSnapshot::from_telemetry_info_value(&value).expect("parse");
    assert!(!snapshot.display_arithmetic_fits(1));
    assert!(snapshot.display_arithmetic_fits(0));
    assert!(!snapshot.display_arithmetic_fits(usize::MAX));
}

#[test]
fn missing_reference_gives_the_error_display() {
    let value = document(
        r#""event-type": "Race""#,
        &[table_entry(1, 7, true, "Far", 0, None)],
    );
    let snapshot = TimingTowerSnapshot::from_telemetry_info_value(&value).expect("parse");
    let display = snapshot.display_state(1);
    assert_eq!(display.error_message.as_deref(), Some("ERROR: Please check the logs"));
    assert_eq!(display.session_info, "RACE    |    LAP 0 / 0");
    assert!(display.rows.is_empty());
    assert!(snapshot.reference_entry().is_some());
}
