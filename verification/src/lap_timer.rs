//! The lap timer: the snapshot it reads, the display it shows, and the controller
//! that keeps the last-lap sector bar up for a while after a lap change.

use vstd::prelude::*;
use crate::error::TelemetryParseError;
use crate::json::{
    array_of, field, field_of, first_failure, flag, flag_of, i32_of, lemma_first_failure_prefix,
    lemma_first_failure_step, number_of, opt, optional_i32, optional_number, optional_u32,
    optional_u8, optional_usize, str_or, string_or, u32_of, u64_of, u8_of, usize_of, value_usize,
    JsonNumber, JsonValue,
};
use crate::text::{
    decimal, has_infix, padded_decimal, push_char, push_decimal, push_padded, push_str,
    str_contains, str_eq, string_of,
};

verus! {

/// How long the last lap's sector bar stays up after a lap change, in milliseconds.
pub const LAST_LAP_SECTOR_BAR_DURATION_MS: u64 = 5000;

/// A lap that has been completed.
#[derive(Debug, Clone, PartialEq)]
pub struct LapTimerCompletedLap {
    pub lap_time_ms: Option<u32>,
    pub sector_status: [i32; 3],
}

/// The lap in progress.
#[derive(Debug, Clone, PartialEq)]
pub struct LapTimerCurrentLap {
    pub lap_time_ms: Option<u32>,
    pub driver_status: String,
    pub sector_status: [i32; 3],
    pub delta_ms: Option<i32>,
    /// The safety-car delta in seconds, as the number the document holds.
    pub delta_sc_sec: Option<JsonNumber>,
}

/// One driver's row of the lap timer table.
#[derive(Debug, Clone, PartialEq)]
pub struct LapTimerEntry {
    pub index: usize,
    pub position: Option<u8>,
    pub is_player: bool,
    pub current_lap_number: Option<u8>,
    pub last_lap: LapTimerCompletedLap,
    pub best_lap: LapTimerCompletedLap,
    pub current_lap: LapTimerCurrentLap,
}

/// What the lap timer reads from one telemetry document.
#[derive(Debug, Clone, PartialEq)]
pub struct LapTimerSnapshot {
    pub session_type: String,
    pub session_uid: u64,
    pub safety_car_status: String,
    pub ref_driver_index: usize,
    pub table_entries: Vec<LapTimerEntry>,
}

/// Whether the delta is shown as neutral, good or bad.
#[derive(Debug, Clone, Copy, PartialEq, Eq, Structural)]
pub enum LapTimerDeltaState {
    Neutral,
    Good,
    Bad,
}

/// The text and sector bars the lap timer shows.
#[derive(Debug, Clone, PartialEq)]
pub struct LapTimerDisplay {
    pub current_time: String,
    pub delta_time: String,
    pub last_time: String,
    pub best_time: String,
    pub estimated_time: String,
    pub current_sector_status: [i32; 3],
    pub last_sector_status: [i32; 3],
    pub best_sector_status: [i32; 3],
    pub delta_state: LapTimerDeltaState,
}

/// The state the lap timer keeps between two documents.
#[derive(Debug)]
pub struct LapTimerController {
    session_uid: Option<u64>,
    last_lap_num: Option<u8>,
    show_last_lap_sector_bar_until_ms: Option<u64>,
}

/// The controller's state as a plain value.
pub struct ControllerState {
    pub session_uid: Option<u64>,
    pub last_lap_num: Option<u8>,
    /// Until when (exclusive) the last lap's sector bar is shown.
    pub show_until: Option<u64>,
}

impl View for LapTimerController {
    type V = ControllerState;

    closed spec fn view(&self) -> ControllerState {
        ControllerState {
            session_uid: self.session_uid,
            last_lap_num: self.last_lap_num,
            show_until: self.show_last_lap_sector_bar_until_ms,
        }
    }
}

// ---------------------------------------------------------------------------
// Session and status rules

/// A race-type session names "Race".
pub open spec fn is_race_type_spec(s: Seq<char>) -> bool {
    has_infix(s, "Race"@)
}

/// A practice session is exactly "Practice".
pub open spec fn is_practice_spec(s: Seq<char>) -> bool {
    s == "Practice"@
}

/// A qualifying session names "Qualifying" or "Shootout".
pub open spec fn is_qualifying_spec(s: Seq<char>) -> bool {
    has_infix(s, "Qualifying"@) || has_infix(s, "Shootout"@)
}

/// The position is predicted in practice and qualifying.
pub open spec fn should_predict_spec(s: Seq<char>) -> bool {
    is_practice_spec(s) || is_qualifying_spec(s)
}

/// A full or virtual safety car is out.
pub open spec fn is_safety_car_spec(s: Seq<char>) -> bool {
    s == "FULL_SAFETY_CAR"@ || s == "VIRTUAL_SAFETY_CAR"@
}

/// Whether the session type names a race-type session.
pub fn is_race_type_session(session_type: &str) -> (r: bool)
    ensures
        r == is_race_type_spec(session_type@),
{
    str_contains(session_type, "Race")
}

/// Whether the session is a practice session.
pub fn is_practice_session(session_type: &str) -> (r: bool)
    ensures
        r == is_practice_spec(session_type@),
{
    str_eq(session_type, "Practice")
}

/// Whether the session is a qualifying session.
pub fn is_qualifying_session(session_type: &str) -> (r: bool)
    ensures
        r == is_qualifying_spec(session_type@),
{
    str_contains(session_type, "Qualifying") || str_contains(session_type, "Shootout")
}

/// Whether the estimated lap comes with a predicted position.
pub fn should_predict_position(session_type: &str) -> (r: bool)
    ensures
        r == should_predict_spec(session_type@),
{
    is_practice_session(session_type) || is_qualifying_session(session_type)
}

/// Whether a safety car (full or virtual) is out.
pub fn is_safety_car(status: &str) -> (r: bool)
    ensures
        r == is_safety_car_spec(status@),
{
    str_eq(status, "FULL_SAFETY_CAR") || str_eq(status, "VIRTUAL_SAFETY_CAR")
}

// ---------------------------------------------------------------------------
// Text

/// A lap time as "MM:SS.mmm", or "--:--.---" when there is none.
pub open spec fn lap_time_text(value: Option<u32>) -> Seq<char> {
    match value {
        None => "--:--.---"@,
        Some(ms) => padded_decimal((ms / 1000 / 60) as nat, 2) + ":"@ + padded_decimal(
            ((ms / 1000) % 60) as nat,
            2,
        ) + "."@ + padded_decimal((ms % 1000) as nat, 3),
    }
}

/// `ms` milliseconds as signed seconds with three decimals ("+0.321", "-0.150").
pub open spec fn signed_seconds_text(ms: int) -> Seq<char> {
    let a: nat = if ms < 0 {
        (-ms) as nat
    } else {
        ms as nat
    };
    (if ms < 0 {
        "-"@
    } else {
        "+"@
    }) + decimal(a / 1000) + "."@ + padded_decimal(a % 1000, 3)
}

/// A delta as signed seconds, or "---" when there is none.
pub open spec fn delta_text(delta_ms: Option<i32>) -> Seq<char> {
    match delta_ms {
        None => "---"@,
        Some(ms) => signed_seconds_text(ms as int),
    }
}

/// Formats a lap time as "MM:SS.mmm" ("--:--.---" when absent).
pub fn format_lap_time(value: Option<u32>) -> (r: String)
    ensures
        r@ == lap_time_text(value),
{
    match value {
        None => string_of("--:--.---"),
        Some(milliseconds) => {
            let total_seconds = milliseconds / 1000;
            let minutes = total_seconds / 60;
            let seconds = total_seconds % 60;
            let millis = milliseconds % 1000;
            let mut out = String::new();
            push_padded(&mut out, minutes as u64, 2);
            push_str(&mut out, ":");
            push_padded(&mut out, seconds as u64, 2);
            push_str(&mut out, ".");
            push_padded(&mut out, millis as u64, 3);
            assert(out@ =~= lap_time_text(value));
            out
        },
    }
}

/// Formats milliseconds as signed seconds with three decimals. The seconds value
/// `ms / 1000` printed with `{:+.3}` reads the same for every `i32`.
pub fn format_signed_millis(ms: i32) -> (r: String)
    ensures
        r@ == signed_seconds_text(ms as int),
{
    let wide: i64 = ms as i64;
    let a: u64 = if wide < 0 {
        (-wide) as u64
    } else {
        wide as u64
    };
    let mut out = if wide < 0 {
        string_of("-")
    } else {
        string_of("+")
    };
    push_decimal(&mut out, a / 1000);
    push_str(&mut out, ".");
    push_padded(&mut out, a % 1000, 3);
    assert(out@ =~= signed_seconds_text(ms as int));
    out
}

/// Formats a delta as signed seconds ("---" when absent).
pub fn format_delta(delta_ms: Option<i32>) -> (r: String)
    ensures
        r@ == delta_text(delta_ms),
{
    match delta_ms {
        None => string_of("---"),
        Some(ms) => format_signed_millis(ms),
    }
}

// ---------------------------------------------------------------------------
// The reference entry and the position prediction

/// The first entry of `entries` for driver `index`.
pub open spec fn entry_for(entries: Seq<LapTimerEntry>, index: usize) -> Option<LapTimerEntry>
    decreases entries.len(),
{
    if entries.len() == 0 {
        None
    } else if entries[0].index == index {
        Some(entries[0])
    } else {
        entry_for(entries.drop_first(), index)
    }
}

/// The entry of the reference driver.
pub open spec fn reference_of(snapshot: LapTimerSnapshot) -> Option<LapTimerEntry> {
    entry_for(snapshot.table_entries@, snapshot.ref_driver_index)
}

/// Whether the entry is another driver's with a best lap no slower than `estimated_ms`.
pub open spec fn ranks_ahead(e: LapTimerEntry, ref_index: usize, estimated_ms: u32) -> bool {
    &&& e.index != ref_index
    &&& e.best_lap.lap_time_ms matches Some(best) && best <= estimated_ms
}

/// How many other drivers' best laps are no slower than `estimated_ms`.
pub open spec fn count_ahead(entries: Seq<LapTimerEntry>, ref_index: usize, estimated_ms: u32) -> nat
    decreases entries.len(),
{
    if entries.len() == 0 {
        0
    } else {
        count_ahead(entries.drop_last(), ref_index, estimated_ms) + if ranks_ahead(
            entries.last(),
            ref_index,
            estimated_ms,
        ) {
            1nat
        } else {
            0nat
        }
    }
}

/// Whether another driver has a best lap.
pub open spec fn has_other_laps(entries: Seq<LapTimerEntry>, ref_index: usize) -> bool {
    exists|i: int|
        0 <= i < entries.len() && #[trigger] entries[i].index != ref_index
            && entries[i].best_lap.lap_time_ms is Some
}

/// The position the reference driver would take with `estimated_ms`: its current
/// position when it is losing time; otherwise one more than the number of other
/// drivers whose best lap is no slower (ties go to the others), when that fits a `u8`.
pub open spec fn predicted_position_spec(snapshot: LapTimerSnapshot, estimated_ms: u32, delta_ms: i32) -> Option<u8> {
    let entries = snapshot.table_entries@;
    let ref_index = snapshot.ref_driver_index;
    if delta_ms > 0 {
        match entry_for(entries, ref_index) {
            Some(e) => e.position,
            None => None,
        }
    } else if !has_other_laps(entries, ref_index) {
        Some(1)
    } else if entry_for(entries, ref_index) is None {
        None
    } else if count_ahead(entries, ref_index, estimated_ms) + 1 <= 255 {
        Some((count_ahead(entries, ref_index, estimated_ms) + 1) as u8)
    } else {
        None
    }
}

/// Looks up the first entry for driver `index`.
pub fn find_entry(entries: &Vec<LapTimerEntry>, index: usize) -> (r: Option<&LapTimerEntry>)
    ensures
        match r {
            Some(e) => entry_for(entries@, index) == Some(*e),
            None => entry_for(entries@, index) is None,
        },
{
    let mut i: usize = 0;
    assert(entries@.skip(0) =~= entries@);
    while i < entries.len()
        invariant
            i <= entries.len(),
            entry_for(entries@, index) == entry_for(entries@.skip(i as int), index),
        decreases entries.len() - i,
    {
        let e = &entries[i];
        assert(entries@.skip(i as int)[0] == entries@[i as int]);
        if e.index == index {
            return Some(e);
        }
        assert(entries@.skip(i as int).drop_first() =~= entries@.skip(i + 1));
        i += 1;
    }
    None
}

impl LapTimerSnapshot {
    /// The reference driver's entry.
    pub fn reference_entry(&self) -> (r: Result<&LapTimerEntry, TelemetryParseError>)
        ensures
            match reference_of(*self) {
                Some(e) => r matches Ok(x) && *x == e,
                None => r matches Err(err) && err.is_invalid("table-entries"@),
            },
    {
        match find_entry(&self.table_entries, self.ref_driver_index) {
            Some(e) => Ok(e),
            None => Err(TelemetryParseError::InvalidField("table-entries")),
        }
    }
}

/// Predicts the reference driver's position for an estimated lap time.
pub fn predicted_position(snapshot: &LapTimerSnapshot, estimated_ms: u32, delta_ms: i32) -> (r: Option<u8>)
    ensures
        r == predicted_position_spec(*snapshot, estimated_ms, delta_ms),
{
    let entries = &snapshot.table_entries;
    let ref_index = snapshot.ref_driver_index;
    if delta_ms > 0 {
        return match find_entry(entries, ref_index) {
            Some(e) => e.position,
            None => None,
        };
    }
    let mut count: usize = 0;
    let mut has_other = false;
    let mut i: usize = 0;
    while i < entries.len()
        invariant
            i <= entries.len(),
            count == count_ahead(entries@.take(i as int), ref_index, estimated_ms),
            count <= i,
            has_other == exists|j: int|
                0 <= j < i && #[trigger] entries@[j].index != ref_index
                    && entries@[j].best_lap.lap_time_ms is Some,
        decreases entries.len() - i,
    {
        let e = &entries[i];
        assert(entries@.take(i + 1).drop_last() =~= entries@.take(i as int));
        if e.index != ref_index {
            match e.best_lap.lap_time_ms {
                Some(best) => {
                    has_other = true;
                    if best <= estimated_ms {
                        count = count + 1;
                    }
                },
                None => {},
            }
        }
        i += 1;
    }
    assert(entries@.take(entries.len() as int) =~= entries@);
    if !has_other {
        return Some(1);
    }
    if find_entry(entries, ref_index).is_none() {
        return None;
    }
    if count < 255 {
        Some((count + 1) as u8)
    } else {
        None
    }
}

// ---------------------------------------------------------------------------
// The display

/// The current lap's text: the safety-car flag in a race under safety car, the lap
/// time in a race or on a flying lap, the driver's status otherwise.
pub open spec fn current_time_text(session: Seq<char>, safety_car: Seq<char>, cur: LapTimerCurrentLap) -> Seq<char> {
    if is_race_type_spec(session) {
        if is_safety_car_spec(safety_car) {
            if safety_car == "VIRTUAL_SAFETY_CAR"@ {
                "VSC"@
            } else {
                "SC"@
            }
        } else {
            lap_time_text(cur.lap_time_ms)
        }
    } else if cur.driver_status@ == "FLYING_LAP"@ || cur.driver_status@ == "ON_TRACK"@ {
        lap_time_text(cur.lap_time_ms)
    } else {
        cur.driver_status@
    }
}

/// The delta in use: the safety-car delta under safety car, the lap delta otherwise.
pub open spec fn delta_in_use(safety_car: Seq<char>, cur: LapTimerCurrentLap) -> Option<i32> {
    if is_safety_car_spec(safety_car) {
        match cur.delta_sc_sec {
            Some(n) => Some(n.thousandths),
            None => None,
        }
    } else {
        cur.delta_ms
    }
}

/// A negative delta is good, except under safety car, where a positive one is.
pub open spec fn delta_state_spec(safety_car: Seq<char>, delta_ms: Option<i32>) -> LapTimerDeltaState {
    match delta_ms {
        None => LapTimerDeltaState::Neutral,
        Some(d) => if (d < 0) != is_safety_car_spec(safety_car) {
            LapTimerDeltaState::Good
        } else {
            LapTimerDeltaState::Bad
        },
    }
}

/// The estimated lap: the best lap plus the delta when both are known and the sum is
/// positive (as a `u32`, wrapping), followed by " | (Pn)" in practice and qualifying
/// when a position can be predicted.
pub open spec fn estimated_text(snapshot: LapTimerSnapshot, e: LapTimerEntry, delta_ms: Option<i32>) -> Seq<char> {
    match (e.best_lap.lap_time_ms, delta_ms) {
        (Some(best), Some(d)) => {
            let est: int = best + d;
            if est <= 0 {
                "--:--.---"@
            } else {
                let est32 = est as u32;
                let base = lap_time_text(Some(est32));
                if should_predict_spec(snapshot.session_type@) {
                    match predicted_position_spec(snapshot, est32, d) {
                        Some(p) => base + " | (P"@ + decimal(p as nat) + ")"@,
                        None => base,
                    }
                } else {
                    base
                }
            }
        },
        _ => "--:--.---"@,
    }
}

/// Whether `d` is what the lap timer shows for `e` in `snapshot`, with the last lap's
/// sector bar in place of the current one when `show_last_lap` holds.
pub open spec fn display_for(d: LapTimerDisplay, snapshot: LapTimerSnapshot, e: LapTimerEntry, show_last_lap: bool) -> bool {
    let sc = snapshot.safety_car_status@;
    let delta = delta_in_use(sc, e.current_lap);
    &&& d.current_time@ == current_time_text(snapshot.session_type@, sc, e.current_lap)
    &&& d.delta_time@ == delta_text(delta)
    &&& d.last_time@ == lap_time_text(e.last_lap.lap_time_ms)
    &&& d.best_time@ == lap_time_text(e.best_lap.lap_time_ms)
    &&& d.estimated_time@ == estimated_text(snapshot, e, delta)
    &&& d.current_sector_status == (if show_last_lap {
        e.last_lap.sector_status
    } else {
        e.current_lap.sector_status
    })
    &&& d.last_sector_status == e.last_lap.sector_status
    &&& d.best_sector_status == e.best_lap.sector_status
    &&& d.delta_state == delta_state_spec(sc, delta)
}

fn current_time_label(snapshot: &LapTimerSnapshot, entry: &LapTimerEntry) -> (r: String)
    ensures
        r@ == current_time_text(
            snapshot.session_type@,
            snapshot.safety_car_status@,
            entry.current_lap,
        ),
{
    if is_race_type_session(snapshot.session_type.as_str()) {
        if is_safety_car(snapshot.safety_car_status.as_str()) {
            return if str_eq(snapshot.safety_car_status.as_str(), "VIRTUAL_SAFETY_CAR") {
                string_of("VSC")
            } else {
                string_of("SC")
            };
        }
        return format_lap_time(entry.current_lap.lap_time_ms);
    }
    let status = entry.current_lap.driver_status.as_str();
    if str_eq(status, "FLYING_LAP") || str_eq(status, "ON_TRACK") {
        format_lap_time(entry.current_lap.lap_time_ms)
    } else {
        entry.current_lap.driver_status.clone()
    }
}

fn calculate_delta_ms(snapshot: &LapTimerSnapshot, entry: &LapTimerEntry) -> (r: Option<i32>)
    ensures
        r == delta_in_use(snapshot.safety_car_status@, entry.current_lap),
{
    if is_safety_car(snapshot.safety_car_status.as_str()) {
        match entry.current_lap.delta_sc_sec {
            Some(n) => Some(n.thousandths),
            None => None,
        }
    } else {
        entry.current_lap.delta_ms
    }
}

fn delta_state(snapshot: &LapTimerSnapshot, delta_ms: Option<i32>) -> (r: LapTimerDeltaState)
    ensures
        r == delta_state_spec(snapshot.safety_car_status@, delta_ms),
{
    match delta_ms {
        None => LapTimerDeltaState::Neutral,
        Some(d) => {
            let is_good = (d < 0) != is_safety_car(snapshot.safety_car_status.as_str());
            if is_good {
                LapTimerDeltaState::Good
            } else {
                LapTimerDeltaState::Bad
            }
        },
    }
}

fn estimated_time_label(snapshot: &LapTimerSnapshot, entry: &LapTimerEntry, delta_ms: Option<i32>) -> (r: String)
    ensures
        r@ == estimated_text(*snapshot, *entry, delta_ms),
{
    let best_ms = match entry.best_lap.lap_time_ms {
        Some(b) => b,
        None => return string_of("--:--.---"),
    };
    let delta = match delta_ms {
        Some(d) => d,
        None => return string_of("--:--.---"),
    };
    let estimated_ms: i64 = best_ms as i64 + delta as i64;
    if estimated_ms <= 0 {
        return string_of("--:--.---");
    }
    let est32 = estimated_ms as u32;
    let mut estimated = format_lap_time(Some(est32));
    if should_predict_position(snapshot.session_type.as_str()) {
        match predicted_position(snapshot, est32, delta) {
            Some(position) => {
                push_str(&mut estimated, " | (P");
                push_decimal(&mut estimated, position as u64);
                push_str(&mut estimated, ")");
            },
            None => {},
        }
    }
    estimated
}

// ---------------------------------------------------------------------------
// The controller

/// A controller that has seen nothing.
pub open spec fn initial_state() -> ControllerState {
    ControllerState { session_uid: None, last_lap_num: None, show_until: None }
}

/// The state once a document of session `uid` arrives at `now_ms`: a new session
/// starts afresh, and an expired sector-bar deadline is dropped.
pub open spec fn state_on_arrival(s: ControllerState, uid: u64, now_ms: u64) -> ControllerState {
    let s1 = if s.session_uid != Some(uid) {
        ControllerState { session_uid: Some(uid), last_lap_num: None, show_until: None }
    } else {
        s
    };
    if s1.show_until matches Some(deadline) && now_ms >= deadline {
        ControllerState { show_until: None, ..s1 }
    } else {
        s1
    }
}

/// Whether the reference driver started a new lap since the last document.
pub open spec fn lap_changed(s: ControllerState, e: LapTimerEntry) -> bool {
    &&& s.last_lap_num matches Some(previous)
    &&& e.current_lap_number matches Some(current)
    &&& previous != current
}

/// The state after a document whose reference entry is `e`.
pub open spec fn state_after_entry(s1: ControllerState, e: LapTimerEntry, now_ms: u64) -> ControllerState {
    let s2 = if lap_changed(s1, e) {
        ControllerState { show_until: Some((now_ms + LAST_LAP_SECTOR_BAR_DURATION_MS) as u64), ..s1 }
    } else {
        s1
    };
    ControllerState { last_lap_num: e.current_lap_number, ..s2 }
}

/// The controller's state after `update(snapshot, now_ms)`.
pub open spec fn next_state(s: ControllerState, snapshot: LapTimerSnapshot, now_ms: u64) -> ControllerState {
    let s1 = state_on_arrival(s, snapshot.session_uid, now_ms);
    match reference_of(snapshot) {
        Some(e) => state_after_entry(s1, e, now_ms),
        None => s1,
    }
}

/// Whether the last lap's sector bar is up at `now_ms` in state `s`.
pub open spec fn shows_last_lap_sectors(s: ControllerState, now_ms: u64) -> bool {
    s.show_until matches Some(deadline) && now_ms < deadline
}

/// Whether `update(snapshot, now_ms)` would overflow when it sets the sector-bar deadline.
pub open spec fn update_overflows(s: ControllerState, snapshot: LapTimerSnapshot, now_ms: u64) -> bool {
    let s1 = state_on_arrival(s, snapshot.session_uid, now_ms);
    &&& reference_of(snapshot) matches Some(e)
    &&& lap_changed(s1, e)
    &&& now_ms + LAST_LAP_SECTOR_BAR_DURATION_MS > u64::MAX
}

impl LapTimerDisplay {
    /// The display before any telemetry has arrived.
    pub fn empty() -> (r: Self)
        ensures
            r.current_time@ == "--:--.---"@,
            r.delta_time@ == "---"@,
            r.last_time@ == "--:--.---"@,
            r.best_time@ == "--:--.---"@,
            r.estimated_time@ == "--:--.---"@,
            r.current_sector_status@ == seq![-2i32, -2i32, -2i32],
            r.last_sector_status@ == seq![-2i32, -2i32, -2i32],
            r.best_sector_status@ == seq![-2i32, -2i32, -2i32],
            r.delta_state == LapTimerDeltaState::Neutral,
    {
        let r = Self {
            current_time: string_of("--:--.---"),
            delta_time: string_of("---"),
            last_time: string_of("--:--.---"),
            best_time: string_of("--:--.---"),
            estimated_time: string_of("--:--.---"),
            current_sector_status: [-2, -2, -2],
            last_sector_status: [-2, -2, -2],
            best_sector_status: [-2, -2, -2],
            delta_state: LapTimerDeltaState::Neutral,
        };
        assert(r.current_sector_status@ =~= seq![-2i32, -2i32, -2i32]);
        assert(r.last_sector_status@ =~= seq![-2i32, -2i32, -2i32]);
        assert(r.best_sector_status@ =~= seq![-2i32, -2i32, -2i32]);
        r
    }
}

impl Default for LapTimerController {
    fn default() -> (r: Self)
        ensures
            r@ == initial_state(),
    {
        LapTimerController::new()
    }
}

impl LapTimerController {
    /// A controller that has seen nothing.
    pub fn new() -> (r: Self)
        ensures
            r@ == initial_state(),
    {
        LapTimerController {
            session_uid: None,
            last_lap_num: None,
            show_last_lap_sector_bar_until_ms: None,
        }
    }

    /// Turns a snapshot that arrives at `now_ms` into the display, and remembers the
    /// session, the reference driver's lap number and the sector-bar deadline.
    pub fn update(&mut self, snapshot: &LapTimerSnapshot, now_ms: u64) -> (r: Result<
        LapTimerDisplay,
        TelemetryParseError,
    >)
        requires
            !update_overflows(old(self)@, *snapshot, now_ms),
        ensures
            final(self)@ == next_state(old(self)@, *snapshot, now_ms),
            match reference_of(*snapshot) {
                Some(e) => r matches Ok(d) && display_for(
                    d,
                    *snapshot,
                    e,
                    shows_last_lap_sectors(final(self)@, now_ms),
                ),
                None => r matches Err(err) && err.is_invalid("table-entries"@),
            },
    {
        if self.session_uid != Some(snapshot.session_uid) {
            self.session_uid = Some(snapshot.session_uid);
            self.last_lap_num = None;
            self.show_last_lap_sector_bar_until_ms = None;
        }
        match self.show_last_lap_sector_bar_until_ms {
            Some(deadline) => {
                if now_ms >= deadline {
                    self.show_last_lap_sector_bar_until_ms = None;
                }
            },
            None => {},
        }
        let entry = match snapshot.reference_entry() {
            Ok(e) => e,
            Err(err) => return Err(err),
        };
        match (self.last_lap_num, entry.current_lap_number) {
            (Some(previous_lap), Some(current_lap)) => {
                if previous_lap != current_lap {
                    self.show_last_lap_sector_bar_until_ms = Some(
                        now_ms + LAST_LAP_SECTOR_BAR_DURATION_MS,
                    );
                }
            },
            _ => {},
        }
        let show_last_lap_sector_bar = match self.show_last_lap_sector_bar_until_ms {
            Some(deadline) => now_ms < deadline,
            None => false,
        };
        let delta_ms = calculate_delta_ms(snapshot, entry);
        let display = LapTimerDisplay {
            current_time: current_time_label(snapshot, entry),
            delta_time: format_delta(delta_ms),
            last_time: format_lap_time(entry.last_lap.lap_time_ms),
            best_time: format_lap_time(entry.best_lap.lap_time_ms),
            estimated_time: estimated_time_label(snapshot, entry, delta_ms),
            current_sector_status: if show_last_lap_sector_bar {
                entry.last_lap.sector_status
            } else {
                entry.current_lap.sector_status
            },
            last_sector_status: entry.last_lap.sector_status,
            best_sector_status: entry.best_lap.sector_status,
            delta_state: delta_state(snapshot, delta_ms),
        };
        self.last_lap_num = entry.current_lap_number;
        Ok(display)
    }
}

// ---------------------------------------------------------------------------
// Reading the document

/// The sector statuses a value holds: three integers, each -2 when it is not an `i32`;
/// all -2 unless the value is an array of exactly three items.
pub open spec fn sectors_of(v: Option<JsonValue>) -> Seq<i32> {
    match array_of(v) {
        Some(items) => if items.len() == 3 {
            Seq::new(
                3,
                |k: int|
                    match i32_of(Some(items[k])) {
                        Some(x) => x,
                        None => -2i32,
                    },
            )
        } else {
            seq![-2i32, -2i32, -2i32]
        },
        None => seq![-2i32, -2i32, -2i32],
    }
}

/// The name of the first field a table entry lacks, in the order they are read.
pub open spec fn entry_missing(v: JsonValue) -> Option<Seq<char>> {
    let driver = field(v, "driver-info"@);
    let lap = field(v, "lap-info"@);
    if driver is None {
        Some("driver-info"@)
    } else if lap is None {
        Some("lap-info"@)
    } else if field_of(lap, "last-lap"@) is None {
        Some("last-lap"@)
    } else if field_of(lap, "best-lap"@) is None {
        Some("best-lap"@)
    } else if field_of(lap, "curr-lap"@) is None {
        Some("curr-lap"@)
    } else if usize_of(field_of(driver, "index"@)) is None {
        Some("index"@)
    } else {
        None
    }
}

/// The check each entry document passes.
pub open spec fn entry_check() -> spec_fn(JsonValue) -> Option<Seq<char>> {
    |x: JsonValue| entry_missing(x)
}

/// Whether `l` is the completed lap that `v` describes.
pub open spec fn completed_lap_of(l: LapTimerCompletedLap, v: Option<JsonValue>) -> bool {
    &&& l.lap_time_ms == u32_of(field_of(v, "lap-time-ms"@))
    &&& l.sector_status@ == sectors_of(field_of(v, "sector-status"@))
}

/// Whether `e` is the table entry that `v` describes.
pub open spec fn entry_of(e: LapTimerEntry, v: JsonValue) -> bool {
    let driver = field(v, "driver-info"@);
    let lap = field(v, "lap-info"@);
    let cur = field_of(lap, "curr-lap"@);
    &&& Some(e.index) == usize_of(field_of(driver, "index"@))
    &&& e.position == u8_of(field_of(driver, "position"@))
    &&& e.is_player == flag_of(field_of(driver, "is-player"@))
    &&& e.current_lap_number == u8_of(field_of(lap, "current-lap"@))
    &&& completed_lap_of(e.last_lap, field_of(lap, "last-lap"@))
    &&& completed_lap_of(e.best_lap, field_of(lap, "best-lap"@))
    &&& e.current_lap.lap_time_ms == u32_of(field_of(cur, "lap-time-ms"@))
    &&& e.current_lap.driver_status@ == str_or(field_of(cur, "driver-status"@), ""@)
    &&& e.current_lap.sector_status@ == sectors_of(field_of(cur, "sector-status"@))
    &&& e.current_lap.delta_ms == i32_of(field_of(cur, "delta-ms"@))
    &&& e.current_lap.delta_sc_sec == number_of(field_of(cur, "delta-sc-sec"@))
}

/// The driver index an entry document names.
pub open spec fn item_index(v: JsonValue) -> Option<usize> {
    usize_of(field_of(field(v, "driver-info"@), "index"@))
}

/// Whether an entry document is the player's.
pub open spec fn item_is_player(v: JsonValue) -> bool {
    flag_of(field_of(field(v, "driver-info"@), "is-player"@))
}

/// The driver index of the first player entry.
pub open spec fn first_player(items: Seq<JsonValue>) -> Option<usize>
    decreases items.len(),
{
    if items.len() == 0 {
        None
    } else if item_is_player(items[0]) {
        item_index(items[0])
    } else {
        first_player(items.drop_first())
    }
}

/// The entry documents of a lap timer document.
pub open spec fn table_items(v: JsonValue) -> Seq<JsonValue> {
    match array_of(field(v, "table-entries"@)) {
        Some(items) => items,
        None => Seq::empty(),
    }
}

/// Whether a lap timer document is spectating.
pub open spec fn spectating(v: JsonValue) -> bool {
    flag_of(field(v, "is-spectating"@))
}

/// Why a lap timer document is refused, in the order the checks are made: whether the
/// field is invalid (rather than missing), and its name.
pub open spec fn lap_snapshot_failure(v: JsonValue) -> Option<(bool, Seq<char>)> {
    let items = table_items(v);
    if u64_of(field(v, "session-uid"@)) is None {
        Some((false, "session-uid"@))
    } else if array_of(field(v, "table-entries"@)) is None {
        Some((false, "table-entries"@))
    } else if first_failure(items, entry_check()) is Some {
        Some((false, first_failure(items, entry_check())->0))
    } else if spectating(v) {
        match usize_of(field(v, "spectator-car-index"@)) {
            None => Some((false, "spectator-car-index"@)),
            Some(k) => if exists|j: int| 0 <= j < items.len() && item_index(#[trigger] items[j]) == Some(k) {
                None
            } else {
                Some((true, "spectator-car-index"@))
            },
        }
    } else if first_player(items) is None {
        Some((true, "table-entries"@))
    } else {
        None
    }
}

/// Whether `e` is the error that `failure` describes.
pub open spec fn fails_as(e: TelemetryParseError, failure: (bool, Seq<char>)) -> bool {
    if failure.0 {
        e.is_invalid(failure.1)
    } else {
        e.is_missing(failure.1)
    }
}

/// Whether `s` is the snapshot a lap timer document `v` describes: its session, its
/// entries in document order, and the reference driver (the watched car when
/// spectating, the first player entry otherwise).
pub open spec fn lap_snapshot_of(s: LapTimerSnapshot, v: JsonValue) -> bool {
    let items = table_items(v);
    &&& s.session_type@ == str_or(field(v, "event-type"@), "None"@)
    &&& Some(s.session_uid) == u64_of(field(v, "session-uid"@))
    &&& s.safety_car_status@ == str_or(field(v, "safety-car-status"@), ""@)
    &&& s.table_entries@.len() == items.len()
    &&& forall|j: int| 0 <= j < items.len() ==> entry_of(#[trigger] s.table_entries@[j], items[j])
    &&& if spectating(v) {
        usize_of(field(v, "spectator-car-index"@)) == Some(s.ref_driver_index)
    } else {
        first_player(items) == Some(s.ref_driver_index)
    }
}

fn sector_item(v: &JsonValue) -> (r: i32)
    ensures
        r == match i32_of(Some(*v)) {
            Some(x) => x,
            None => -2i32,
        },
{
    match optional_i32(Some(v)) {
        Some(x) => x,
        None => -2,
    }
}

/// Reads three sector statuses (all -2 unless the value is an array of three).
pub fn sector_status_array(value: Option<&JsonValue>) -> (r: [i32; 3])
    ensures
        r@ == sectors_of(opt(value)),
{
    let items = match value {
        Some(v) => match v.as_array() {
            Some(items) => items,
            None => {
                let r = [-2i32, -2i32, -2i32];
                assert(r@ =~= sectors_of(opt(value)));
                return r;
            },
        },
        None => {
            let r = [-2i32, -2i32, -2i32];
            assert(r@ =~= sectors_of(opt(value)));
            return r;
        },
    };
    if items.len() != 3 {
        let r = [-2i32, -2i32, -2i32];
        assert(r@ =~= sectors_of(opt(value)));
        return r;
    }
    let r = [sector_item(&items[0]), sector_item(&items[1]), sector_item(&items[2])];
    assert(r@ =~= sectors_of(opt(value)));
    r
}

fn required<'a>(value: Option<&'a JsonValue>, name: &'static str) -> (r: Result<
    &'a JsonValue,
    TelemetryParseError,
>)
    ensures
        match value {
            Some(v) => r == Ok::<&JsonValue, TelemetryParseError>(v),
            None => r matches Err(e) && e.is_missing(name@),
        },
{
    match value {
        Some(v) => Ok(v),
        None => Err(TelemetryParseError::MissingField(name)),
    }
}

fn parse_completed_lap(value: &JsonValue) -> (r: LapTimerCompletedLap)
    ensures
        completed_lap_of(r, Some(*value)),
{
    LapTimerCompletedLap {
        lap_time_ms: optional_u32(value.get("lap-time-ms")),
        sector_status: sector_status_array(value.get("sector-status")),
    }
}

/// Reads one table entry.
pub fn parse_table_entry(value: &JsonValue) -> (r: Result<LapTimerEntry, TelemetryParseError>)
    ensures
        match entry_missing(*value) {
            Some(name) => r matches Err(e) && e.is_missing(name),
            None => r matches Ok(e) && entry_of(e, *value),
        },
{
    let driver_info = required(value.get("driver-info"), "driver-info")?;
    let lap_info = required(value.get("lap-info"), "lap-info")?;
    let last_lap = required(lap_info.get("last-lap"), "last-lap")?;
    let best_lap = required(lap_info.get("best-lap"), "best-lap")?;
    let current_lap = required(lap_info.get("curr-lap"), "curr-lap")?;
    let index = value_usize(driver_info, "index")?;
    Ok(
        LapTimerEntry {
            index,
            position: optional_u8(driver_info.get("position")),
            is_player: flag(driver_info.get("is-player")),
            current_lap_number: optional_u8(lap_info.get("current-lap")),
            last_lap: parse_completed_lap(last_lap),
            best_lap: parse_completed_lap(best_lap),
            current_lap: LapTimerCurrentLap {
                lap_time_ms: optional_u32(current_lap.get("lap-time-ms")),
                driver_status: string_or(current_lap.get("driver-status"), ""),
                sector_status: sector_status_array(current_lap.get("sector-status")),
                delta_ms: optional_i32(current_lap.get("delta-ms")),
                delta_sc_sec: optional_number(current_lap.get("delta-sc-sec")),
            },
        },
    )
}

impl LapTimerSnapshot {
    /// Reads a lap timer snapshot from a telemetry document.
    pub fn from_telemetry_info_value(value: &JsonValue) -> (r: Result<Self, TelemetryParseError>)
        ensures
            match lap_snapshot_failure(*value) {
                Some(failure) => r matches Err(e) && fails_as(e, failure),
                None => r matches Ok(s) && lap_snapshot_of(s, *value),
            },
    {
        let session_type = string_or(value.get("event-type"), "None");
        let session_uid = match value.get("session-uid") {
            Some(v) => match v.as_u64() {
                Some(n) => n,
                None => return Err(TelemetryParseError::MissingField("session-uid")),
            },
            None => return Err(TelemetryParseError::MissingField("session-uid")),
        };
        let safety_car_status = string_or(value.get("safety-car-status"), "");
        let is_spectating = flag(value.get("is-spectating"));
        let spectator_car_index = optional_usize(value.get("spectator-car-index"));
        let items = match value.get("table-entries") {
            Some(v) => match v.as_array() {
                Some(items) => items,
                None => return Err(TelemetryParseError::MissingField("table-entries")),
            },
            None => return Err(TelemetryParseError::MissingField("table-entries")),
        };
        let ghost check = entry_check();
        assert(items@ == table_items(*value));
        let mut table_entries: Vec<LapTimerEntry> = Vec::new();
        let mut i: usize = 0;
        assert(items@.take(0) =~= Seq::<JsonValue>::empty());
        while i < items.len()
            invariant
                items@ == table_items(*value),
                check == entry_check(),
                u64_of(field(*value, "session-uid"@)) is Some,
                array_of(field(*value, "table-entries"@)) is Some,
                i <= items.len(),
                table_entries@.len() == i,
                first_failure(items@.take(i as int), check) is None,
                forall|j: int| 0 <= j < i ==> entry_of(#[trigger] table_entries@[j], items@[j]),
            decreases items.len() - i,
        {
            proof {
                lemma_first_failure_step(items@, check, i as int);
            }
            match parse_table_entry(&items[i]) {
                Ok(e) => {
                    table_entries.push(e);
                },
                Err(err) => {
                    proof {
                        lemma_first_failure_prefix(items@, check, i + 1);
                    }
                    return Err(err);
                },
            }
            i += 1;
        }
        assert(items@.take(items.len() as int) =~= items@);
        let ref_driver_index = if is_spectating {
            let spectator_index = match spectator_car_index {
                Some(k) => k,
                None => return Err(TelemetryParseError::MissingField("spectator-car-index")),
            };
            let mut found = false;
            let mut j: usize = 0;
            while j < table_entries.len() && !found
                invariant
                    table_entries@.len() == items@.len(),
                    items@ == table_items(*value),
                    forall|t: int|
                        0 <= t < items@.len() ==> entry_of(#[trigger] table_entries@[t], items@[t]),
                    j <= table_entries.len(),
                    found ==> exists|t: int|
                        0 <= t < items@.len() && item_index(#[trigger] items@[t]) == Some(
                            spectator_index,
                        ),
                    !found ==> forall|t: int|
                        0 <= t < j ==> item_index(#[trigger] items@[t]) != Some(spectator_index),
                decreases table_entries.len() - j,
            {
                assert(entry_of(table_entries@[j as int], items@[j as int]));
                if table_entries[j].index == spectator_index {
                    found = true;
                }
                j += 1;
            }
            if !found {
                return Err(TelemetryParseError::InvalidField("spectator-car-index"));
            }
            spectator_index
        } else {
            let mut found: Option<usize> = None;
            let mut j: usize = 0;
            assert(items@.skip(0) =~= items@);
            while j < table_entries.len() && found.is_none()
                invariant
                    table_entries@.len() == items@.len(),
                    items@ == table_items(*value),
                    forall|t: int|
                        0 <= t < items@.len() ==> entry_of(#[trigger] table_entries@[t], items@[t]),
                    j <= table_entries.len(),
                    found is Some ==> found == first_player(items@),
                    found is None ==> first_player(items@) == first_player(items@.skip(j as int)),
                decreases table_entries.len() - j,
            {
                assert(entry_of(table_entries@[j as int], items@[j as int]));
                assert(items@.skip(j as int)[0] == items@[j as int]);
                if table_entries[j].is_player {
                    found = Some(table_entries[j].index);
                }
                assert(items@.skip(j as int).drop_first() =~= items@.skip(j + 1));
                j += 1;
            }
            match found {
                Some(k) => k,
                None => {
                    assert(items@.skip(j as int) =~= Seq::<JsonValue>::empty());
                    return Err(TelemetryParseError::InvalidField("table-entries"));
                },
            }
        };
        Ok(
            LapTimerSnapshot {
                session_type,
                session_uid,
                safety_car_status,
                ref_driver_index,
                table_entries,
            },
        )
    }
}

// ---------------------------------------------------------------------------
// Laws of the controller

/// A document from another session is handled as by a controller that has seen
/// nothing: the session's history is forgotten.
pub proof fn law_new_session_starts_afresh(s: ControllerState, snapshot: LapTimerSnapshot, now_ms: u64)
    requires
        s.session_uid != Some(snapshot.session_uid),
    ensures
        next_state(s, snapshot, now_ms) == next_state(initial_state(), snapshot, now_ms),
        update_overflows(s, snapshot, now_ms) == update_overflows(initial_state(), snapshot, now_ms),
{
}

/// Once the reference driver starts a new lap at `t`, later documents of the same
/// session on the same lap show the last lap's sector bar exactly while `t2 < t + 5000`.
pub proof fn law_last_lap_bar_lasts_five_seconds(
    s: ControllerState,
    first: LapTimerSnapshot,
    t: u64,
    second: LapTimerSnapshot,
    t2: u64,
)
    requires
        first.session_uid == second.session_uid,
        reference_of(first) matches Some(e1) && lap_changed(
            state_on_arrival(s, first.session_uid, t),
            e1,
        ),
        t + LAST_LAP_SECTOR_BAR_DURATION_MS <= u64::MAX,
        reference_of(first) matches Some(e1) && reference_of(second) matches Some(e2)
            && e2.current_lap_number == e1.current_lap_number,
    ensures
        shows_last_lap_sectors(next_state(next_state(s, first, t), second, t2), t2) == (t2 < t
            + LAST_LAP_SECTOR_BAR_DURATION_MS),
{
}

/// Handing the controller the same document twice at the same instant changes
/// nothing the second time.
pub proof fn law_repeated_update_is_stable(s: ControllerState, snapshot: LapTimerSnapshot, now_ms: u64)
    requires
        !update_overflows(s, snapshot, now_ms),
    ensures
        next_state(next_state(s, snapshot, now_ms), snapshot, now_ms) == next_state(
            s,
            snapshot,
            now_ms,
        ),
        !update_overflows(next_state(s, snapshot, now_ms), snapshot, now_ms),
{
}

// ---------------------------------------------------------------------------
// Laws of the display

proof fn lemma_lap_time_text_len(value: Option<u32>)
    ensures
        lap_time_text(value).len() >= 9,
{
    reveal_strlit("--:--.---");
    reveal_strlit(":");
    reveal_strlit(".");
}

/// In a race-type session the current-time card shows "SC" under a full safety car
/// and "VSC" under a virtual one, and shows either only under that safety car.
pub proof fn law_safety_car_label(d: LapTimerDisplay, snapshot: LapTimerSnapshot, e: LapTimerEntry, show_last_lap: bool)
    requires
        display_for(d, snapshot, e, show_last_lap),
        has_infix(snapshot.session_type@, "Race"@),
    ensures
        snapshot.safety_car_status@ == "FULL_SAFETY_CAR"@ ==> d.current_time@ == "SC"@,
        snapshot.safety_car_status@ == "VIRTUAL_SAFETY_CAR"@ ==> d.current_time@ == "VSC"@,
        d.current_time@ == "VSC"@ ==> snapshot.safety_car_status@ == "VIRTUAL_SAFETY_CAR"@,
        d.current_time@ == "SC"@ ==> snapshot.safety_car_status@ == "FULL_SAFETY_CAR"@,
{
    reveal_strlit("SC");
    reveal_strlit("VSC");
    reveal_strlit("FULL_SAFETY_CAR");
    reveal_strlit("VIRTUAL_SAFETY_CAR");
    lemma_lap_time_text_len(e.current_lap.lap_time_ms);
    let sc = snapshot.safety_car_status@;
    assert("FULL_SAFETY_CAR"@[0] != "VIRTUAL_SAFETY_CAR"@[0]);
    assert("FULL_SAFETY_CAR"@ != "VIRTUAL_SAFETY_CAR"@);
    assert("SC"@.len() != "VSC"@.len());
    if sc == "FULL_SAFETY_CAR"@ {
        assert(is_safety_car_spec(sc));
        assert(d.current_time@ == "SC"@);
    }
    if d.current_time@ == "VSC"@ {
        if !is_safety_car_spec(sc) {
            assert(d.current_time@ == lap_time_text(e.current_lap.lap_time_ms));
            assert(false);
        }
        if sc != "VIRTUAL_SAFETY_CAR"@ {
            assert(d.current_time@ == "SC"@);
            assert(false);
        }
    }
}

// ---------------------------------------------------------------------------
// Laws of the predicted position

proof fn lemma_count_ahead_add(a: Seq<LapTimerEntry>, b: Seq<LapTimerEntry>, ref_index: usize, estimated_ms: u32)
    ensures
        count_ahead(a + b, ref_index, estimated_ms) == count_ahead(a, ref_index, estimated_ms)
            + count_ahead(b, ref_index, estimated_ms),
    decreases b.len(),
{
    if b.len() == 0 {
        assert(a + b =~= a);
    } else {
        assert((a + b).drop_last() =~= a + b.drop_last());
        assert((a + b).last() == b.last());
        lemma_count_ahead_add(a, b.drop_last(), ref_index, estimated_ms);
    }
}

proof fn lemma_entry_for_skips(a: Seq<LapTimerEntry>, x: LapTimerEntry, b: Seq<LapTimerEntry>, index: usize)
    requires
        x.index != index,
    ensures
        entry_for(a + seq![x] + b, index) == entry_for(a + b, index),
    decreases a.len(),
{
    if a.len() == 0 {
        assert(a + seq![x] + b =~= seq![x] + b);
        assert(a + b =~= b);
        assert((seq![x] + b).drop_first() =~= b);
    } else {
        assert((a + seq![x] + b).drop_first() =~= a.drop_first() + seq![x] + b);
        assert((a + b).drop_first() =~= a.drop_first() + b);
        lemma_entry_for_skips(a.drop_first(), x, b, index);
    }
}

proof fn lemma_entry_for_present(entries: Seq<LapTimerEntry>, index: usize, i: int)
    requires
        0 <= i < entries.len(),
        entries[i].index == index,
    ensures
        entry_for(entries, index) is Some,
    decreases i,
{
    if i > 0 && entries[0].index != index {
        assert(entries.drop_first()[i - 1] == entries[i]);
        lemma_entry_for_present(entries.drop_first(), index, i - 1);
    }
}

proof fn lemma_count_ahead_filter(
    entries: Seq<LapTimerEntry>,
    ref_index: usize,
    estimated_ms: u32,
    pred: spec_fn(LapTimerEntry) -> bool,
)
    requires
        forall|e: LapTimerEntry| #[trigger] pred(e) == ranks_ahead(e, ref_index, estimated_ms),
    ensures
        count_ahead(entries, ref_index, estimated_ms) == entries.filter(pred).len(),
    decreases entries.len(),
{
    reveal(Seq::filter);
    if entries.len() > 0 {
        lemma_count_ahead_filter(entries.drop_last(), ref_index, estimated_ms, pred);
        assert(pred(entries.last()) == ranks_ahead(entries.last(), ref_index, estimated_ms));
    }
}

/// Another driver's entry without a best lap never moves the prediction: inserting it
/// anywhere in the table leaves the predicted position as it was.
pub proof fn law_unranked_entry_does_not_count(
    with_entry: LapTimerSnapshot,
    without_entry: LapTimerSnapshot,
    a: Seq<LapTimerEntry>,
    x: LapTimerEntry,
    b: Seq<LapTimerEntry>,
    estimated_ms: u32,
    delta_ms: i32,
)
    requires
        without_entry.table_entries@ == a + b,
        with_entry.table_entries@ == a + seq![x] + b,
        with_entry.ref_driver_index == without_entry.ref_driver_index,
        x.index != with_entry.ref_driver_index,
        x.best_lap.lap_time_ms is None,
    ensures
        predicted_position_spec(with_entry, estimated_ms, delta_ms) == predicted_position_spec(
            without_entry,
            estimated_ms,
            delta_ms,
        ),
{
    let r = with_entry.ref_driver_index;
    let s1 = a + b;
    let s2 = a + seq![x] + b;
    lemma_entry_for_skips(a, x, b, r);
    lemma_count_ahead_add(a + seq![x], b, r, estimated_ms);
    lemma_count_ahead_add(a, seq![x], r, estimated_ms);
    lemma_count_ahead_add(a, b, r, estimated_ms);
    assert(seq![x].drop_last() =~= Seq::<LapTimerEntry>::empty());
    assert(seq![x].last() == x);
    assert(!ranks_ahead(x, r, estimated_ms));
    assert(count_ahead(Seq::<LapTimerEntry>::empty(), r, estimated_ms) == 0);
    assert(count_ahead(seq![x], r, estimated_ms) == 0);
    if has_other_laps(s1, r) {
        let i = choose|i: int| 0 <= i < s1.len() && #[trigger] s1[i].index != r
            && s1[i].best_lap.lap_time_ms is Some;
        if i < a.len() {
            assert(s2[i] == s1[i]);
        } else {
            assert(s2[i + 1] == s1[i]);
        }
    }
    if has_other_laps(s2, r) {
        let i = choose|i: int| 0 <= i < s2.len() && #[trigger] s2[i].index != r
            && s2[i].best_lap.lap_time_ms is Some;
        if i < a.len() {
            assert(s1[i] == s2[i]);
        } else if i == a.len() {
            assert(s2[i] == x);
        } else {
            assert(s1[i - 1] == s2[i]);
        }
    }
}

/// When the reference driver is gaining time (a delta of zero or less), is in the
/// table, and another driver has set a best lap, the predicted position is one more
/// than the number of other drivers whose best lap is set and no slower than the
/// estimate (when that fits a `u8`); drivers without a best lap are not counted.
/// When no other driver has set a best lap, the prediction is first place.
pub proof fn law_prediction_counts_faster_laps(snapshot: LapTimerSnapshot, estimated_ms: u32, delta_ms: i32)
    requires
        delta_ms <= 0,
        exists|i: int|
            0 <= i < snapshot.table_entries@.len() && #[trigger] snapshot.table_entries@[i].index
                == snapshot.ref_driver_index,
    ensures
        ({
            let entries = snapshot.table_entries@;
            let ref_index = snapshot.ref_driver_index;
            let faster = entries.filter(
                |e: LapTimerEntry|
                    e.index != ref_index && (e.best_lap.lap_time_ms matches Some(best) && best
                        <= estimated_ms),
            ).len();
            (exists|j: int|
                0 <= j < entries.len() && #[trigger] entries[j].index != ref_index
                    && entries[j].best_lap.lap_time_ms is Some) ==> predicted_position_spec(
                snapshot,
                estimated_ms,
                delta_ms,
            ) == if faster + 1 <= 255 {
                Some((faster + 1) as u8)
            } else {
                None
            }
        }),
        (forall|j: int|
            0 <= j < snapshot.table_entries@.len() && #[trigger] snapshot.table_entries@[j].index
                != snapshot.ref_driver_index ==> snapshot.table_entries@[j].best_lap.lap_time_ms is None)
            ==> predicted_position_spec(snapshot, estimated_ms, delta_ms) == Some(1u8),
{
    let entries = snapshot.table_entries@;
    let ref_index = snapshot.ref_driver_index;
    let i = choose|i: int| 0 <= i < entries.len() && #[trigger] entries[i].index == ref_index;
    lemma_entry_for_present(entries, ref_index, i);
    let pred = |e: LapTimerEntry|
        e.index != ref_index && (e.best_lap.lap_time_ms matches Some(best) && best <= estimated_ms);
    lemma_count_ahead_filter(entries, ref_index, estimated_ms, pred);
}

} // verus!
