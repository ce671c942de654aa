use hud_renderer::presentation::{
    compound_color, compound_label, delta_cell, elide_text, ers_mode_color, format_penalties,
    sector_color, team_color, DeltaCell, Rgb,
};
use hud_renderer::timing_tower::TimingTowerEntry;

fn entry() -> TimingTowerEntry {
    TimingTowerEntry {
        index: 4,
        position: 2,
        is_player: false,
        name: "Driver".to_string(),
        team: "Ferrari".to_string(),
        telemetry_public: true,
        drs: false,
        is_pitting: false,
        dnf_status: None,
        delta_to_car_in_front_ms: 0,
        best_lap_time_ms: None,
        visual_tyre_compound: "Soft".to_string(),
        tyre_age_laps: 3,
        max_tyre_wear_f64_bits: None,
        ers_percent_f64_bits: None,
        ers_mode: "None".to_string(),
        num_dt: 0,
        num_sg: 0,
        time_penalties_sec: 0,
        corner_cutting_warnings: 2,
        relative_delta_ms: Some(1234),
    }
}

#[test]
fn sector_colours() {
    assert_eq!(sector_color(-2), Rgb { r: 108, g: 117, b: 125 });
    assert_eq!(sector_color(1), Rgb { r: 40, g: 167, b: 69 });
    assert_eq!(sector_color(2), Rgb { r: 128, g: 0, b: 128 });
    assert_eq!(sector_color(7), Rgb { r: 50, g: 50, b: 50 });
}

#[test]
fn team_colour_follows_the_name_hash() {
    let hash = "McLaren".bytes().fold(0u32, |acc, b| acc.wrapping_mul(33).wrapping_add(b as u32));
    let palette = [
        (232, 65, 24),
        (243, 156, 18),
        (241, 196, 15),
        (46, 204, 113),
        (26, 188, 156),
        (52, 152, 219),
        (41, 128, 185),
        (155, 89, 182),
        (192, 57, 43),
        (127, 140, 141),
        (230, 126, 34),
        (22, 160, 133),
    ];
    let (r, g, b) = palette[(hash % 12) as usize];
    assert_eq!(team_color("McLaren"), Rgb { r, g, b });
    assert_eq!(team_color(""), Rgb { r: 232, g: 65, b: 24 });
}

#[test]
fn compounds() {
    assert_eq!(compound_label("Soft"), "S");
    assert_eq!(compound_label("SUPER SOFT"), "S");
    assert_eq!(compound_label("Medium"), "M");
    assert_eq!(compound_label("Hard"), "H");
    assert_eq!(compound_label("Intermediate"), "I");
    assert_eq!(compound_label("Wet"), "W");
    assert_eq!(compound_label("c3"), "C");
    assert_eq!(compound_label("ß"), "SS");
    assert_eq!(compound_label(""), "?");
    assert_eq!(compound_color("Medium"), Rgb { r: 255, g: 224, b: 64 });
    assert_eq!(compound_color("x"), Rgb { r: 180, g: 180, b: 180 });
    assert_eq!(ers_mode_color("Overtake"), Rgb { r: 255, g: 0, b: 0 });
    assert_eq!(ers_mode_color("overtake"), Rgb { r: 136, g: 136, b: 136 });
}

#[test]
fn names_are_elided() {
    assert_eq!(elide_text("VERSTAPPEN", 18), "VERSTAPPEN");
    assert_eq!(elide_text("ABCDEFGHIJKLMNOPQRSTUV", 18), "ABCDEFGHIJKLMNO...");
    assert_eq!(elide_text("ABCDE", 2), "...");
    assert_eq!(elide_text("ÄÖÜÄÖÜ", 5), "ÄÖ...");
}

#[test]
fn penalties() {
    let mut row = entry();
    assert_eq!(format_penalties(&row, false), "");
    assert_eq!(format_penalties(&row, true), "TL: 2");
    row.num_sg = 1;
    row.time_penalties_sec = 5;
    assert_eq!(format_penalties(&row, true), "+15sec");
    row.num_dt = 2;
    assert_eq!(format_penalties(&row, true), "2DT");
}

#[test]
fn delta_cells() {
    let mut row = entry();
    assert_eq!(delta_cell(&row, 7), DeltaCell::Millis(1234));
    assert_eq!(delta_cell(&row, 4), DeltaCell::Text("---".to_string()));
    row.relative_delta_ms = Some(0);
    assert_eq!(delta_cell(&row, 7), DeltaCell::Text("---".to_string()));
    row.relative_delta_ms = None;
    assert_eq!(delta_cell(&row, 7), DeltaCell::Text("---".to_string()));
    row.dnf_status = Some("DSQ".to_string());
    assert_eq!(delta_cell(&row, 7), DeltaCell::Text("DSQ".to_string()));
    row.dnf_status = Some("RETIRED".to_string());
    assert_eq!(delta_cell(&row, 7), DeltaCell::Text("---".to_string()));
    row.is_pitting = true;
    assert_eq!(delta_cell(&row, 7), DeltaCell::Text("PIT".to_string()));
}
