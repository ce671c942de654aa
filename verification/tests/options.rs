use hud_renderer::options::{
    endpoint_url, parse_bool_arg, parse_overlay_args, resolve_base_url, total_rows, OverlayKind,
};
use hud_renderer::text::{parse_unsigned_decimal, trim};

fn args(list: &[&str]) -> Vec<String> {
    list.iter().map(|s| s.to_string()).collect()
}

#[test]
fn bool_arguments_ignore_case_and_whitespace() {
    assert_eq!(parse_bool_arg("1"), Some(true));
    assert_eq!(parse_bool_arg(" TRUE "), Some(true));
    assert_eq!(parse_bool_arg("Yes"), Some(true));
    assert_eq!(parse_bool_arg("on\n"), Some(true));
    assert_eq!(parse_bool_arg("0"), Some(false));
    assert_eq!(parse_bool_arg("\u{3000}False"), Some(false));
    assert_eq!(parse_bool_arg("no"), Some(false));
    assert_eq!(parse_bool_arg("OFF"), Some(false));
    assert_eq!(parse_bool_arg("maybe"), None);
    assert_eq!(parse_bool_arg(""), None);
}

#[test]
fn timing_tower_arguments_are_read() {
    let a = parse_overlay_args(
        OverlayKind::TimingTower,
        &args(&[
            "--sample",
            "http://host:1",
            "--num-adjacent-cars",
            "3",
            "--show-pens",
            "no",
            "--render-interval-ms",
            "0",
            "--fetch-interval-ms",
            "+100",
            "--x",
            "12.5",
            "--unknown",
            "http://other",
            "--title",
        ]),
    );
    assert!(a.sample_mode);
    assert_eq!(a.positional_base_url.as_deref(), Some("http://host:1"));
    assert_eq!(a.num_adjacent_cars, Some(3));
    assert_eq!(a.show_pens, Some(false));
    assert_eq!(a.render_interval_ms, None);
    assert_eq!(a.fetch_interval_ms, Some(100));
    assert_eq!(a.x.as_deref(), Some("12.5"));
    assert_eq!(a.title, None);
}

#[test]
fn options_of_other_overlays_are_skipped() {
    let a = parse_overlay_args(
        OverlayKind::LapTimer,
        &args(&["--num-adjacent-cars", "3", "--history-length", "7"]),
    );
    assert_eq!(a.num_adjacent_cars, None);
    assert_eq!(a.positional_base_url.as_deref(), Some("3"));
    let b = parse_overlay_args(OverlayKind::InputTelemetry, &args(&["--history-length", "7"]));
    assert_eq!(b.history_length, Some(7));
    let c = parse_overlay_args(
        OverlayKind::TimingTower,
        &args(&["--num-adjacent-cars", "23", "--num-adjacent-cars", "2", "--interval-ms", "16"]),
    );
    assert_eq!(c.num_adjacent_cars, Some(2));
    assert_eq!(c.render_interval_ms, Some(16));
    let d = parse_overlay_args(
        OverlayKind::TrackRadar,
        &args(&["--range-meters", "30", "--idle-opacity", "0.5"]),
    );
    assert_eq!(d.range_meters.as_deref(), Some("30"));
    assert_eq!(d.idle_opacity.as_deref(), Some("0.5"));
}

#[test]
fn later_values_replace_earlier_ones() {
    let a = parse_overlay_args(
        OverlayKind::TimingTower,
        &args(&["--show-deltas", "yes", "--show-deltas", "perhaps", "--title", "A", "--title", "B"]),
    );
    assert_eq!(a.show_deltas, None);
    assert_eq!(a.title.as_deref(), Some("B"));
}

#[test]
fn base_url_is_chosen_in_order() {
    assert_eq!(
        resolve_base_url(Some("http://cli".to_string()), Some("http://env".to_string()), "d"),
        "http://cli"
    );
    assert_eq!(resolve_base_url(None, Some("http://env".to_string()), "d"), "http://env");
    assert_eq!(resolve_base_url(None, Some("  ".to_string()), "d"), "d");
    assert_eq!(resolve_base_url(None, None, "d"), "d");
}

#[test]
fn endpoints_are_joined_with_one_slash() {
    assert_eq!(
        endpoint_url("http://127.0.0.1:4768/", "/telemetry-info"),
        "http://127.0.0.1:4768/telemetry-info"
    );
    assert_eq!(endpoint_url("http://h//", "hud/track-radar"), "http://h/hud/track-radar");
    assert_eq!(endpoint_url("", ""), "/");
}

#[test]
fn tower_rows_are_capped() {
    assert_eq!(total_rows(2), 5);
    assert_eq!(total_rows(10), 21);
    assert_eq!(total_rows(11), 22);
    assert_eq!(total_rows(40), 22);
}

#[test]
fn unsigned_numbers_parse_like_std() {
    assert_eq!(parse_unsigned_decimal("18446744073709551615", u64::MAX), Some(u64::MAX));
    assert_eq!(parse_unsigned_decimal("18446744073709551616", u64::MAX), None);
    assert_eq!(parse_unsigned_decimal("+7", u64::MAX), Some(7));
    assert_eq!(parse_unsigned_decimal("+", u64::MAX), None);
    assert_eq!(parse_unsigned_decimal("-1", u64::MAX), None);
    assert_eq!(parse_unsigned_decimal(" 1", u64::MAX), None);
    assert_eq!(parse_unsigned_decimal("007", 10), Some(7));
    assert_eq!(parse_unsigned_decimal("11", 10), None);
    assert_eq!(trim("\t a b \u{2028}"), "a b");
}
