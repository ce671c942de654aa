use hud_renderer::error::TelemetryParseError;
use hud_renderer::json::{JsonNumber, JsonValue};
use hud_renderer::track_radar::TrackRadarSnapshot;
use serde_json::Value;

fn to_json(v: &Value) -> JsonValue {
    match v {
        Value::Null => JsonValue::Null,
        Value::Bool(b) => JsonValue::Bool(*b),
        Value::Number(n) => {
            let f = n.as_f64().unwrap_or(0.0);
            JsonValue::Number(JsonNumber {
                as_u64: n.as_u64(),
                as_i64: n.as_i64(),
                f64_bits: f.to_bits(),
                thousandths: ((f as f32) * 1000.0) as i32,
            })
        }
        Value::String(s) => JsonValue::Str(s.clone()),
        Value::Array(items) => JsonValue::Array(items.iter().map(to_json).collect()),
        Value::Object(map) => {
            JsonValue::Object(map.iter().map(|(k, v)| (k.clone(), to_json(v))).collect())
        }
    }
}

fn parse(text: &str) -> JsonValue {
    to_json(&serde_json::from_str::<Value>(text).expect("valid json"))
}

#[test]
fn parses_track_radar_shape_from_stream_overlay_payload() {
    let value = parse(
        r#"{
            "ref-index": 7,
            "motion": [
                {
                    "name": "Driver 7",
                    "team": "Ferrari",
                    "track-position": 3,
                    "index": 7,
                    "motion": {
                        "world-position": { "x": 10.0, "y": 0.0, "z": 100.0 },
                        "orientation": { "yaw": 0.5 }
                    }
                }
            ]
        }"#,
    );

    let snapshot = TrackRadarSnapshot::from_stream_overlay_value(&value).expect("parse");

    assert_eq!(snapshot.ref_index, 7);
    assert_eq!(snapshot.drivers.len(), 1);
    assert_eq!(snapshot.drivers[0].name, "Driver 7");
    assert_eq!(
        f64::from_bits(
            snapshot.drivers[0]
                .motion
                .as_ref()
                .expect("driver motion")
                .world_position
                .z
        ),
        100.0
    );
}

#[test]
fn radar_parse_errors_name_the_missing_field() {
    assert_eq!(
        TrackRadarSnapshot::from_stream_overlay_value(&parse(r#"{ "motion": [] }"#)),
        Err(TelemetryParseError::MissingField("ref-index"))
    );
    assert_eq!(
        TrackRadarSnapshot::from_stream_overlay_value(&parse(r#"{ "ref-index": 1 }"#)),
        Err(TelemetryParseError::MissingField("motion"))
    );
    assert_eq!(
        TrackRadarSnapshot::from_stream_overlay_value(&parse(
            r#"{ "ref-index": 1, "motion": [ { "index": 1 } ] }"#
        )),
        Err(TelemetryParseError::MissingField("name"))
    );
    assert_eq!(
        TrackRadarSnapshot::from_stream_overlay_value(&parse(
            r#"{ "ref-index": 1, "motion": [ { "name": "A", "index": 1 } ] }"#
        )),
        Err(TelemetryParseError::MissingField("motion"))
    );
    assert_eq!(
        TrackRadarSnapshot::from_stream_overlay_value(&parse(
            r#"{ "ref-index": 1, "motion": [ { "name": "A", "index": 1, "motion": { "world-position": { "x": 1, "y": 2 }, "orientation": { "yaw": 0 } } } ] }"#
        )),
        Err(TelemetryParseError::MissingField("world-position.z"))
    );
}

#[test]
fn null_motion_is_accepted_and_reference_motion_is_checked() {
    let value = parse(
        r#"{ "ref-index": 1, "motion": [
            { "name": "A", "index": 1, "motion": null },
            { "name": "B", "index": 2, "team": "Williams", "motion": { "world-position": { "x": 1, "y": 2, "z": 3 }, "orientation": { "yaw": -1.5 } } }
        ] }"#,
    );
    let mut snapshot = TrackRadarSnapshot::from_stream_overlay_value(&value).expect("parse");
    assert_eq!(snapshot.drivers[0].motion, None);
    assert_eq!(snapshot.drivers[0].team, None);
    assert_eq!(snapshot.drivers[1].team.as_deref(), Some("Williams"));
    assert_eq!(
        snapshot.reference_motion(),
        Err(TelemetryParseError::InvalidField("motion"))
    );
    snapshot.ref_index = 2;
    let motion = snapshot.reference_motion().expect("motion");
    assert_eq!(f64::from_bits(motion.yaw), -1.5);
    assert_eq!(f64::from_bits(motion.world_position.x), 1.0);
    snapshot.ref_index = 3;
    assert_eq!(
        snapshot.reference_motion(),
        Err(TelemetryParseError::InvalidField("ref-index"))
    );
}
