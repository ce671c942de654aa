//! The timing tower: the standings it reads, the window of rows around the
//! reference driver, and the gaps it shows relative to that driver.

use vstd::prelude::*;
use crate::error::TelemetryParseError;
use crate::json::{
    array_of, field, field_of, first_failure, flag, flag_of, i32_of, lemma_first_failure_prefix,
    lemma_first_failure_step, number_of, opt, optional_i32, optional_u32, optional_u8,
    optional_usize, str_of, str_or, string_or, u32_of, u8_of, usize_of, value_u8, value_usize,
    JsonValue,
};
use crate::lap_timer::is_race_type_spec;
use crate::text::{
    decimal, has_infix, padded_decimal, push_decimal, push_padded, push_str, str_contains, str_eq,
    string_of, to_uppercase, unicode_uppercase,
};

verus! {

/// One driver's row of the timing tower.
#[derive(Debug, PartialEq)]
pub struct TimingTowerEntry {
    pub index: usize,
    pub position: u8,
    pub is_player: bool,
    pub name: String,
    pub team: String,
    pub telemetry_public: bool,
    pub drs: bool,
    pub is_pitting: bool,
    pub dnf_status: Option<String>,
    pub delta_to_car_in_front_ms: i32,
    pub best_lap_time_ms: Option<u32>,
    pub visual_tyre_compound: String,
    pub tyre_age_laps: u32,
    /// The bit pattern of the largest tyre-wear reading, as a double.
    pub max_tyre_wear_f64_bits: Option<u64>,
    /// The bit pattern of the ERS charge reading, as a double.
    pub ers_percent_f64_bits: Option<u64>,
    pub ers_mode: String,
    pub num_dt: u8,
    pub num_sg: u8,
    pub time_penalties_sec: u32,
    pub corner_cutting_warnings: u8,
    pub relative_delta_ms: Option<i32>,
}

impl Clone for TimingTowerEntry {
    fn clone(&self) -> (r: Self)
        ensures
            r == *self,
    {
        TimingTowerEntry {
            index: self.index,
            position: self.position,
            is_player: self.is_player,
            name: self.name.clone(),
            team: self.team.clone(),
            telemetry_public: self.telemetry_public,
            drs: self.drs,
            is_pitting: self.is_pitting,
            dnf_status: match &self.dnf_status {
                Some(s) => Some(s.clone()),
                None => None,
            },
            delta_to_car_in_front_ms: self.delta_to_car_in_front_ms,
            best_lap_time_ms: self.best_lap_time_ms,
            visual_tyre_compound: self.visual_tyre_compound.clone(),
            tyre_age_laps: self.tyre_age_laps,
            max_tyre_wear_f64_bits: self.max_tyre_wear_f64_bits,
            ers_percent_f64_bits: self.ers_percent_f64_bits,
            ers_mode: self.ers_mode.clone(),
            num_dt: self.num_dt,
            num_sg: self.num_sg,
            time_penalties_sec: self.time_penalties_sec,
            corner_cutting_warnings: self.corner_cutting_warnings,
            relative_delta_ms: self.relative_delta_ms,
        }
    }
}

// ---------------------------------------------------------------------------
// Ordering by position

/// The entries of `s` at position `p`, in order.
pub open spec fn at_position(s: Seq<TimingTowerEntry>, p: u8) -> Seq<TimingTowerEntry>
    decreases s.len(),
{
    if s.len() == 0 {
        Seq::empty()
    } else if s.last().position == p {
        at_position(s.drop_last(), p).push(s.last())
    } else {
        at_position(s.drop_last(), p)
    }
}

/// Whether positions never decrease along `s`.
pub open spec fn sorted_by_position(s: Seq<TimingTowerEntry>) -> bool {
    forall|i: int, j: int| 0 <= i <= j < s.len() ==> s[i].position <= s[j].position
}

/// Whether `out` is `input` sorted by position, entries of equal position keeping
/// their order.
pub open spec fn stably_sorted(out: Seq<TimingTowerEntry>, input: Seq<TimingTowerEntry>) -> bool {
    &&& sorted_by_position(out)
    &&& forall|p: u8| #[trigger] at_position(out, p) == at_position(input, p)
}

proof fn lemma_at_position_add(a: Seq<TimingTowerEntry>, b: Seq<TimingTowerEntry>, p: u8)
    ensures
        at_position(a + b, p) == at_position(a, p) + at_position(b, p),
    decreases b.len(),
{
    if b.len() == 0 {
        assert(a + b =~= a);
        assert(at_position(a, p) + at_position(b, p) =~= at_position(a, p));
    } else {
        assert((a + b).drop_last() =~= a + b.drop_last());
        assert((a + b).last() == b.last());
        lemma_at_position_add(a, b.drop_last(), p);
        if b.last().position == p {
            assert(at_position(a, p) + at_position(b.drop_last(), p).push(b.last()) =~= (at_position(
                a,
                p,
            ) + at_position(b.drop_last(), p)).push(b.last()));
        }
    }
}

proof fn lemma_at_position_absent(s: Seq<TimingTowerEntry>, p: u8)
    requires
        forall|i: int| 0 <= i < s.len() ==> s[i].position != p,
    ensures
        at_position(s, p) == Seq::<TimingTowerEntry>::empty(),
    decreases s.len(),
{
    if s.len() > 0 {
        lemma_at_position_absent(s.drop_last(), p);
    }
}

proof fn lemma_at_position_single(x: TimingTowerEntry, p: u8)
    ensures
        at_position(seq![x], p) == (if x.position == p {
            seq![x]
        } else {
            Seq::<TimingTowerEntry>::empty()
        }),
{
    assert(seq![x].drop_last() =~= Seq::<TimingTowerEntry>::empty());
    assert(seq![x].len() == 1 && seq![x].last() == x);
    assert(at_position(Seq::<TimingTowerEntry>::empty(), p) == Seq::<TimingTowerEntry>::empty());
    if x.position == p {
        assert(Seq::<TimingTowerEntry>::empty().push(x) =~= seq![x]);
    }
}

/// Sorts entries by position; entries of equal position keep their order, and none is
/// lost or added.
pub fn sort_by_position(entries: Vec<TimingTowerEntry>) -> (r: Vec<TimingTowerEntry>)
    ensures
        stably_sorted(r@, entries@),
        r@.len() == entries@.len(),
{
    let ghost orig = entries@;
    let mut rest = entries;
    let mut out: Vec<TimingTowerEntry> = Vec::new();
    let ghost mut k: int = 0;
    assert(orig.skip(0) =~= orig);
    assert forall|p: u8| #[trigger] at_position(out@, p) == at_position(orig.take(0), p) by {
        assert(orig.take(0) =~= out@);
    }
    while rest.len() > 0
        invariant
            0 <= k <= orig.len(),
            rest@ == orig.skip(k),
            out@.len() == k,
            sorted_by_position(out@),
            forall|p: u8| #[trigger] at_position(out@, p) == at_position(orig.take(k), p),
        decreases rest.len(),
    {
        let x = rest.remove(0);
        assert(x == orig[k]);
        assert(rest@ =~= orig.skip(k + 1));
        let mut pos: usize = 0;
        while pos < out.len() && out[pos].position <= x.position
            invariant
                pos <= out.len(),
                forall|i: int| 0 <= i < pos ==> out@[i].position <= x.position,
            decreases out.len() - pos,
        {
            pos += 1;
        }
        let ghost before = out@;
        assert forall|i: int| pos <= i < before.len() implies before[i].position > x.position by {
            assert(before[pos as int].position > x.position);
            assert(before[pos as int].position <= before[i].position);
        }
        out.insert(pos, x);
        proof {
            assert(out@ =~= before.take(pos as int) + seq![x] + before.skip(pos as int));
            assert(before =~= before.take(pos as int) + before.skip(pos as int));
            assert(orig.take(k + 1) =~= orig.take(k) + seq![x]);
            assert forall|p: u8| #[trigger] at_position(out@, p) == at_position(orig.take(k + 1), p) by {
                lemma_at_position_add(before.take(pos as int) + seq![x], before.skip(pos as int), p);
                lemma_at_position_add(before.take(pos as int), seq![x], p);
                lemma_at_position_add(before.take(pos as int), before.skip(pos as int), p);
                lemma_at_position_add(orig.take(k), seq![x], p);
                lemma_at_position_single(x, p);
                if x.position == p {
                    lemma_at_position_absent(before.skip(pos as int), p);
                    assert(at_position(before.take(pos as int), p) + seq![x] + Seq::<
                        TimingTowerEntry,
                    >::empty() =~= at_position(before.take(pos as int), p) + seq![x]);
                    assert(at_position(before.take(pos as int), p) + Seq::<TimingTowerEntry>::empty()
                        =~= at_position(before.take(pos as int), p));
                } else {
                    assert(at_position(before.take(pos as int), p) + Seq::<
                        TimingTowerEntry,
                    >::empty() =~= at_position(before.take(pos as int), p));
                    assert(at_position(orig.take(k), p) + Seq::<TimingTowerEntry>::empty()
                        =~= at_position(orig.take(k), p));
                }
            }
            assert forall|i: int, j: int| 0 <= i <= j < out@.len() implies out@[i].position
                <= out@[j].position by {
                if i < pos && j > pos {
                    assert(out@[j] == before[j - 1]);
                    assert(out@[i] == before[i]);
                } else if i < pos && j < pos {
                    assert(out@[j] == before[j]);
                    assert(out@[i] == before[i]);
                } else if i > pos {
                    assert(out@[j] == before[j - 1]);
                    assert(out@[i] == before[i - 1]);
                } else if i == pos && j > pos {
                    assert(out@[j] == before[j - 1]);
                }
            }
            k = k + 1;
        }
    }
    assert(orig.take(k) =~= orig);
    out
}

// ---------------------------------------------------------------------------
// Tyre wear

/// The order of doubles (other than NaN) read from their bit patterns.
pub open spec fn f64_order_key(bits: u64) -> int {
    if bits >= 0x8000_0000_0000_0000 {
        -((bits - 0x8000_0000_0000_0000) as int)
    } else {
        bits as int
    }
}

/// The bit pattern of a number, as a double.
pub open spec fn bits_of(v: JsonValue) -> u64 {
    match v {
        JsonValue::Number(n) => n.f64_bits,
        _ => 0,
    }
}

/// The readings a tyre-wear value holds: an array's items or an object's member values.
pub open spec fn wear_items(v: Option<JsonValue>) -> Seq<JsonValue> {
    match v {
        Some(JsonValue::Array(items)) => items@,
        Some(JsonValue::Object(members)) => members@.map_values(|m: (String, JsonValue)| m.1),
        _ => Seq::empty(),
    }
}

/// Whether item `i` is the first number no smaller than every number of `vals`.
pub open spec fn is_first_max(vals: Seq<JsonValue>, i: int) -> bool {
    &&& 0 <= i < vals.len()
    &&& vals[i] is Number
    &&& forall|j: int|
        0 <= j < vals.len() && #[trigger] vals[j] is Number ==> f64_order_key(bits_of(vals[j]))
            <= f64_order_key(bits_of(vals[i]))
    &&& forall|j: int|
        0 <= j < i && #[trigger] vals[j] is Number ==> f64_order_key(bits_of(vals[j]))
            < f64_order_key(bits_of(vals[i]))
}

/// The largest number among `vals` (the first of equal ones), as a double's bit pattern.
pub open spec fn max_reading(vals: Seq<JsonValue>) -> Option<u64> {
    if exists|i: int| is_first_max(vals, i) {
        Some(bits_of(vals[choose|i: int| is_first_max(vals, i)]))
    } else {
        None
    }
}

proof fn lemma_first_max_unique(vals: Seq<JsonValue>, i: int, j: int)
    requires
        is_first_max(vals, i),
        is_first_max(vals, j),
    ensures
        i == j,
{
    if i < j {
        assert(vals[i] is Number);
    } else if j < i {
        assert(vals[j] is Number);
    }
}

fn f64_key(bits: u64) -> (r: i128)
    ensures
        r == f64_order_key(bits),
{
    if bits >= 0x8000_0000_0000_0000 {
        -((bits - 0x8000_0000_0000_0000) as i128)
    } else {
        bits as i128
    }
}

fn max_of_items(items: &Vec<JsonValue>) -> (r: Option<u64>)
    ensures
        r == max_reading(items@),
{
    let mut best: Option<(usize, u64)> = None;
    let mut i: usize = 0;
    while i < items.len()
        invariant
            i <= items.len(),
            best is None ==> forall|j: int| 0 <= j < i ==> !(#[trigger] items@[j] is Number),
            best matches Some((bi, b)) ==> {
                &&& bi < i
                &&& items@[bi as int] is Number
                &&& bits_of(items@[bi as int]) == b
                &&& forall|j: int|
                    0 <= j < i && #[trigger] items@[j] is Number ==> f64_order_key(
                        bits_of(items@[j]),
                    ) <= f64_order_key(b)
                &&& forall|j: int|
                    0 <= j < bi && #[trigger] items@[j] is Number ==> f64_order_key(
                        bits_of(items@[j]),
                    ) < f64_order_key(b)
            },
        decreases items.len() - i,
    {
        match items[i].as_number() {
            Some(n) => {
                let replace = match best {
                    None => true,
                    Some((_, b)) => f64_key(n.f64_bits) > f64_key(b),
                };
                if replace {
                    best = Some((i, n.f64_bits));
                }
            },
            None => {},
        }
        i += 1;
    }
    match best {
        None => {
            assert(!exists|k: int| is_first_max(items@, k));
            None
        },
        Some((bi, b)) => {
            assert(is_first_max(items@, bi as int));
            let ghost c = choose|k: int| is_first_max(items@, k);
            proof {
                lemma_first_max_unique(items@, bi as int, c);
            }
            Some(b)
        },
    }
}

fn max_of_members(members: &Vec<(String, JsonValue)>) -> (r: Option<u64>)
    ensures
        r == max_reading(members@.map_values(|m: (String, JsonValue)| m.1)),
{
    let ghost vals = members@.map_values(|m: (String, JsonValue)| m.1);
    let mut best: Option<(usize, u64)> = None;
    let mut i: usize = 0;
    while i < members.len()
        invariant
            vals == members@.map_values(|m: (String, JsonValue)| m.1),
            vals.len() == members@.len(),
            i <= members.len(),
            best is None ==> forall|j: int| 0 <= j < i ==> !(#[trigger] vals[j] is Number),
            best matches Some((bi, b)) ==> {
                &&& bi < i
                &&& vals[bi as int] is Number
                &&& bits_of(vals[bi as int]) == b
                &&& forall|j: int|
                    0 <= j < i && #[trigger] vals[j] is Number ==> f64_order_key(bits_of(vals[j]))
                        <= f64_order_key(b)
                &&& forall|j: int|
                    0 <= j < bi && #[trigger] vals[j] is Number ==> f64_order_key(
                        bits_of(vals[j]),
                    ) < f64_order_key(b)
            },
        decreases members.len() - i,
    {
        assert(vals[i as int] == members@[i as int].1);
        match members[i].1.as_number() {
            Some(n) => {
                let replace = match best {
                    None => true,
                    Some((_, b)) => f64_key(n.f64_bits) > f64_key(b),
                };
                if replace {
                    best = Some((i, n.f64_bits));
                }
            },
            None => {},
        }
        i += 1;
    }
    match best {
        None => {
            assert(!exists|k: int| is_first_max(vals, k));
            None
        },
        Some((bi, b)) => {
            assert(is_first_max(vals, bi as int));
            let ghost c = choose|k: int| is_first_max(vals, k);
            proof {
                lemma_first_max_unique(vals, bi as int, c);
            }
            Some(b)
        },
    }
}

/// The largest tyre-wear reading, as a double's bit pattern.
pub fn max_tyre_wear(value: Option<&JsonValue>) -> (r: Option<u64>)
    ensures
        r == max_reading(wear_items(opt(value))),
{
    match value {
        Some(JsonValue::Array(items)) => max_of_items(items),
        Some(JsonValue::Object(members)) => max_of_members(members),
        _ => None,
    }
}

// ---------------------------------------------------------------------------
// Reading the document

/// The standings the timing tower reads from one telemetry document.
#[derive(Debug, PartialEq)]
pub struct TimingTowerSnapshot {
    pub session_type: String,
    pub current_lap: Option<u8>,
    pub total_laps: Option<u8>,
    pub session_time_left_sec: Option<u32>,
    pub ref_driver_index: usize,
    pub table_entries: Vec<TimingTowerEntry>,
}

/// An unsigned byte the value holds, or zero.
pub open spec fn u8_or_zero(v: Option<JsonValue>) -> u8 {
    match u8_of(v) {
        Some(n) => n,
        None => 0,
    }
}

/// An unsigned integer the value holds, or zero.
pub open spec fn u32_or_zero(v: Option<JsonValue>) -> u32 {
    match u32_of(v) {
        Some(n) => n,
        None => 0,
    }
}

/// The name of the first field a tower entry lacks, in the order they are read.
pub open spec fn tower_entry_missing(v: JsonValue) -> Option<Seq<char>> {
    let driver = field(v, "driver-info"@);
    if driver is None {
        Some("driver-info"@)
    } else if field(v, "delta-info"@) is None {
        Some("delta-info"@)
    } else if field(v, "tyre-info"@) is None {
        Some("tyre-info"@)
    } else if field(v, "ers-info"@) is None {
        Some("ers-info"@)
    } else if field(v, "warns-pens-info"@) is None {
        Some("warns-pens-info"@)
    } else if field(v, "lap-info"@) is None {
        Some("lap-info"@)
    } else if usize_of(field_of(driver, "index"@)) is None {
        Some("index"@)
    } else if u8_of(field_of(driver, "position"@)) is None {
        Some("position"@)
    } else {
        None
    }
}

/// The check each tower entry document passes.
pub open spec fn tower_entry_check() -> spec_fn(JsonValue) -> Option<Seq<char>> {
    |x: JsonValue| tower_entry_missing(x)
}

/// The pit flag: "is-pitting", or "is_pitting" when the former is absent.
pub open spec fn pitting_of(driver: Option<JsonValue>) -> bool {
    if field_of(driver, "is-pitting"@) is Some {
        flag_of(field_of(driver, "is-pitting"@))
    } else {
        flag_of(field_of(driver, "is_pitting"@))
    }
}

/// Whether `e` is the tower entry that `v` describes (with no relative delta yet).
pub open spec fn tower_entry_of(e: TimingTowerEntry, v: JsonValue) -> bool {
    let d = field(v, "driver-info"@);
    let delta = field(v, "delta-info"@);
    let tyre = field(v, "tyre-info"@);
    let ers = field(v, "ers-info"@);
    let warns = field(v, "warns-pens-info"@);
    let lap = field(v, "lap-info"@);
    &&& Some(e.index) == usize_of(field_of(d, "index"@))
    &&& Some(e.position) == u8_of(field_of(d, "position"@))
    &&& e.is_player == flag_of(field_of(d, "is-player"@))
    &&& e.name@ == str_or(field_of(d, "name"@), "UNKNOWN"@)
    &&& e.team@ == str_or(field_of(d, "team"@), "UNKNOWN"@)
    &&& e.telemetry_public == (str_of(field_of(d, "telemetry-setting"@)) == Some("Public"@))
    &&& e.drs == flag_of(field_of(d, "drs"@))
    &&& e.is_pitting == pitting_of(d)
    &&& match str_of(field_of(d, "dnf-status"@)) {
        Some(status) => if status.len() > 0 {
            e.dnf_status matches Some(x) && x@ == status
        } else {
            e.dnf_status is None
        },
        None => e.dnf_status is None,
    }
    &&& e.delta_to_car_in_front_ms == match i32_of(field_of(delta, "delta-to-car-in-front"@)) {
        Some(x) => x,
        None => 0i32,
    }
    &&& e.best_lap_time_ms == u32_of(field_of(field_of(lap, "best-lap"@), "lap-time-ms"@))
    &&& e.visual_tyre_compound@ == str_or(field_of(tyre, "visual-tyre-compound"@), "Unknown"@)
    &&& e.tyre_age_laps == u32_or_zero(field_of(tyre, "tyre-age"@))
    &&& e.max_tyre_wear_f64_bits == max_reading(wear_items(field_of(tyre, "current-wear"@)))
    &&& e.ers_percent_f64_bits == match number_of(field_of(ers, "ers-percent-float"@)) {
        Some(n) => Some(n.f64_bits),
        None => None,
    }
    &&& e.ers_mode@ == str_or(field_of(ers, "ers-mode"@), "None"@)
    &&& e.num_dt == u8_or_zero(field_of(warns, "num-dt"@))
    &&& e.num_sg == u8_or_zero(field_of(warns, "num-sg"@))
    &&& e.time_penalties_sec == u32_or_zero(field_of(warns, "time-penalties"@))
    &&& e.corner_cutting_warnings == u8_or_zero(field_of(warns, "corner-cutting-warnings"@))
    &&& e.relative_delta_ms is None
}

fn required<'a>(value: Option<&'a JsonValue>, name: &'static str) -> (r: Result<
    &'a JsonValue,
    TelemetryParseError,
>)
    ensures
        match value {
            Some(v) => r == Ok::<&JsonValue, TelemetryParseError>(v),
            None => r matches Err(e) && e.is_missing(name@),
        },
{
    match value {
        Some(v) => Ok(v),
        None => Err(TelemetryParseError::MissingField(name)),
    }
}

fn pitting(driver_info: &JsonValue) -> (r: bool)
    ensures
        r == pitting_of(Some(*driver_info)),
{
    match driver_info.get("is-pitting") {
        Some(v) => flag(Some(v)),
        None => flag(driver_info.get("is_pitting")),
    }
}

fn dnf_status(driver_info: &JsonValue) -> (r: Option<String>)
    ensures
        match str_of(field(*driver_info, "dnf-status"@)) {
            Some(status) => if status.len() > 0 {
                r matches Some(x) && x@ == status
            } else {
                r is None
            },
            None => r is None,
        },
{
    match driver_info.get("dnf-status") {
        Some(v) => match v.as_str() {
            Some(status) => if status.is_empty() {
                None
            } else {
                Some(string_of(status))
            },
            None => None,
        },
        None => None,
    }
}

/// Reads one timing tower entry.
pub fn parse_tower_entry(value: &JsonValue) -> (r: Result<TimingTowerEntry, TelemetryParseError>)
    ensures
        match tower_entry_missing(*value) {
            Some(name) => r matches Err(e) && e.is_missing(name),
            None => r matches Ok(e) && tower_entry_of(e, *value),
        },
{
    let driver_info = required(value.get("driver-info"), "driver-info")?;
    let delta_info = required(value.get("delta-info"), "delta-info")?;
    let tyre_info = required(value.get("tyre-info"), "tyre-info")?;
    let ers_info = required(value.get("ers-info"), "ers-info")?;
    let warns_pens_info = required(value.get("warns-pens-info"), "warns-pens-info")?;
    let lap_info = required(value.get("lap-info"), "lap-info")?;
    let index = value_usize(driver_info, "index")?;
    let position = value_u8(driver_info, "position")?;
    let telemetry_public = match driver_info.get("telemetry-setting") {
        Some(v) => match v.as_str() {
            Some(setting) => str_eq(setting, "Public"),
            None => false,
        },
        None => false,
    };
    let best_lap = match lap_info.get("best-lap") {
        Some(b) => optional_u32(b.get("lap-time-ms")),
        None => None,
    };
    let ers_percent = match ers_info.get("ers-percent-float") {
        Some(v) => match v.as_number() {
            Some(n) => Some(n.f64_bits),
            None => None,
        },
        None => None,
    };
    Ok(
        TimingTowerEntry {
            index,
            position,
            is_player: flag(driver_info.get("is-player")),
            name: string_or(driver_info.get("name"), "UNKNOWN"),
            team: string_or(driver_info.get("team"), "UNKNOWN"),
            telemetry_public,
            drs: flag(driver_info.get("drs")),
            is_pitting: pitting(driver_info),
            dnf_status: dnf_status(driver_info),
            delta_to_car_in_front_ms: match optional_i32(delta_info.get("delta-to-car-in-front")) {
                Some(x) => x,
                None => 0,
            },
            best_lap_time_ms: best_lap,
            visual_tyre_compound: string_or(tyre_info.get("visual-tyre-compound"), "Unknown"),
            tyre_age_laps: match optional_u32(tyre_info.get("tyre-age")) {
                Some(x) => x,
                None => 0,
            },
            max_tyre_wear_f64_bits: max_tyre_wear(tyre_info.get("current-wear")),
            ers_percent_f64_bits: ers_percent,
            ers_mode: string_or(ers_info.get("ers-mode"), "None"),
            num_dt: match optional_u8(warns_pens_info.get("num-dt")) {
                Some(x) => x,
                None => 0,
            },
            num_sg: match optional_u8(warns_pens_info.get("num-sg")) {
                Some(x) => x,
                None => 0,
            },
            time_penalties_sec: match optional_u32(warns_pens_info.get("time-penalties")) {
                Some(x) => x,
                None => 0,
            },
            corner_cutting_warnings: match optional_u8(
                warns_pens_info.get("corner-cutting-warnings"),
            ) {
                Some(x) => x,
                None => 0,
            },
            relative_delta_ms: None,
        },
    )
}

/// The entry documents of a timing tower document (none when absent).
pub open spec fn tower_items(v: JsonValue) -> Seq<JsonValue> {
    match array_of(field(v, "table-entries"@)) {
        Some(items) => items,
        None => Seq::empty(),
    }
}

/// The driver index of the first player entry.
pub open spec fn first_player_index(entries: Seq<TimingTowerEntry>) -> Option<usize>
    decreases entries.len(),
{
    if entries.len() == 0 {
        None
    } else if entries[0].is_player {
        Some(entries[0].index)
    } else {
        first_player_index(entries.drop_first())
    }
}

/// The reference driver among the sorted entries: none (0) for an empty table; the
/// watched car when spectating and it is in the table; the first player otherwise;
/// and the leader when neither is found.
pub open spec fn tower_reference_index(
    entries: Seq<TimingTowerEntry>,
    spectating: bool,
    spectator: Option<usize>,
) -> usize {
    if entries.len() == 0 {
        0
    } else if spectating {
        match spectator {
            Some(k) => if exists|j: int| 0 <= j < entries.len() && #[trigger] entries[j].index == k {
                k
            } else {
                entries[0].index
            },
            None => entries[0].index,
        }
    } else {
        match first_player_index(entries) {
            Some(k) => k,
            None => entries[0].index,
        }
    }
}

/// Whether `s` is the snapshot a timing tower document `v` describes: its session,
/// its entries sorted by position (stably), and the reference driver.
pub open spec fn tower_snapshot_of(s: TimingTowerSnapshot, v: JsonValue) -> bool {
    let items = tower_items(v);
    &&& s.session_type@ == str_or(field(v, "event-type"@), "None"@)
    &&& s.current_lap == u8_of(field(v, "current-lap"@))
    &&& s.total_laps == u8_of(field(v, "total-laps"@))
    &&& s.session_time_left_sec == u32_of(field(v, "session-time-left"@))
    &&& s.table_entries@.len() == items.len()
    &&& exists|parsed: Seq<TimingTowerEntry>|
        {
            &&& parsed.len() == items.len()
            &&& forall|j: int| 0 <= j < items.len() ==> tower_entry_of(#[trigger] parsed[j], items[j])
            &&& stably_sorted(s.table_entries@, parsed)
        }
    &&& s.ref_driver_index == tower_reference_index(
        s.table_entries@,
        flag_of(field(v, "is-spectating"@)),
        usize_of(field(v, "spectator-car-index"@)),
    )
}

fn choose_reference(
    entries: &Vec<TimingTowerEntry>,
    is_spectating: bool,
    spectator_car_index: Option<usize>,
) -> (r: usize)
    ensures
        r == tower_reference_index(entries@, is_spectating, spectator_car_index),
{
    if entries.len() == 0 {
        return 0;
    }
    if is_spectating {
        match spectator_car_index {
            Some(k) => {
                let mut j: usize = 0;
                while j < entries.len()
                    invariant
                        j <= entries.len(),
                        entries@.len() > 0,
                        is_spectating,
                        spectator_car_index == Some(k),
                        forall|t: int| 0 <= t < j ==> #[trigger] entries@[t].index != k,
                    decreases entries.len() - j,
                {
                    if entries[j].index == k {
                        assert(entries@[j as int].index == k);
                        return k;
                    }
                    j += 1;
                }
                entries[0].index
            },
            None => entries[0].index,
        }
    } else {
        let mut j: usize = 0;
        assert(entries@.skip(0) =~= entries@);
        while j < entries.len()
            invariant
                j <= entries.len(),
                entries@.len() > 0,
                !is_spectating,
                first_player_index(entries@) == first_player_index(entries@.skip(j as int)),
            decreases entries.len() - j,
        {
            assert(entries@.skip(j as int)[0] == entries@[j as int]);
            if entries[j].is_player {
                return entries[j].index;
            }
            assert(entries@.skip(j as int).drop_first() =~= entries@.skip(j + 1));
            j += 1;
        }
        assert(entries@.skip(j as int) =~= Seq::<TimingTowerEntry>::empty());
        entries[0].index
    }
}

impl TimingTowerSnapshot {
    /// Reads a timing tower snapshot from a telemetry document.
    pub fn from_telemetry_info_value(value: &JsonValue) -> (r: Result<Self, TelemetryParseError>)
        ensures
            match first_failure(tower_items(*value), tower_entry_check()) {
                Some(name) => r matches Err(e) && e.is_missing(name),
                None => r matches Ok(s) && tower_snapshot_of(s, *value),
            },
    {
        let session_type = string_or(value.get("event-type"), "None");
        let current_lap = optional_u8(value.get("current-lap"));
        let total_laps = optional_u8(value.get("total-laps"));
        let session_time_left_sec = optional_u32(value.get("session-time-left"));
        let is_spectating = flag(value.get("is-spectating"));
        let spectator_car_index = optional_usize(value.get("spectator-car-index"));
        let empty: Vec<JsonValue> = Vec::new();
        let items: &Vec<JsonValue> = match value.get("table-entries") {
            Some(v) => match v.as_array() {
                Some(items) => items,
                None => &empty,
            },
            None => &empty,
        };
        assert(items@ == tower_items(*value));
        let ghost check = tower_entry_check();
        let mut parsed: Vec<TimingTowerEntry> = Vec::new();
        let mut i: usize = 0;
        assert(items@.take(0) =~= Seq::<JsonValue>::empty());
        while i < items.len()
            invariant
                items@ == tower_items(*value),
                check == tower_entry_check(),
                i <= items.len(),
                parsed@.len() == i,
                first_failure(items@.take(i as int), check) is None,
                forall|j: int| 0 <= j < i ==> tower_entry_of(#[trigger] parsed@[j], items@[j]),
            decreases items.len() - i,
        {
            proof {
                lemma_first_failure_step(items@, check, i as int);
            }
            match parse_tower_entry(&items[i]) {
                Ok(e) => {
                    parsed.push(e);
                },
                Err(err) => {
                    proof {
                        lemma_first_failure_prefix(items@, check, i + 1);
                    }
                    return Err(err);
                },
            }
            i += 1;
        }
        assert(items@.take(items.len() as int) =~= items@);
        let ghost parsed_view = parsed@;
        let table_entries = sort_by_position(parsed);
        let ref_driver_index = choose_reference(&table_entries, is_spectating, spectator_car_index);
        let r = TimingTowerSnapshot {
            session_type,
            current_lap,
            total_laps,
            session_time_left_sec,
            ref_driver_index,
            table_entries,
        };
        assert(parsed_view.len() == tower_items(*value).len());
        assert(tower_snapshot_of(r, *value));
        Ok(r)
    }

    /// The first entry of the reference driver.
    pub fn reference_entry(&self) -> (r: Option<&TimingTowerEntry>)
        ensures
            match tower_entry_for(self.table_entries@, self.ref_driver_index) {
                Some(e) => r matches Some(x) && *x == e,
                None => r is None,
            },
    {
        let mut i: usize = 0;
        assert(self.table_entries@.skip(0) =~= self.table_entries@);
        while i < self.table_entries.len()
            invariant
                i <= self.table_entries.len(),
                tower_entry_for(self.table_entries@, self.ref_driver_index) == tower_entry_for(
                    self.table_entries@.skip(i as int),
                    self.ref_driver_index,
                ),
            decreases self.table_entries.len() - i,
        {
            assert(self.table_entries@.skip(i as int)[0] == self.table_entries@[i as int]);
            let e = &self.table_entries[i];
            if e.index == self.ref_driver_index {
                return Some(e);
            }
            assert(self.table_entries@.skip(i as int).drop_first() =~= self.table_entries@.skip(
                i + 1,
            ));
            i += 1;
        }
        None
    }
}

/// The first entry of `entries` for driver `index`.
pub open spec fn tower_entry_for(entries: Seq<TimingTowerEntry>, index: usize) -> Option<TimingTowerEntry>
    decreases entries.len(),
{
    if entries.len() == 0 {
        None
    } else if entries[0].index == index {
        Some(entries[0])
    } else {
        tower_entry_for(entries.drop_first(), index)
    }
}

// ---------------------------------------------------------------------------
// The display

/// What the timing tower shows.
#[derive(Debug, PartialEq)]
pub struct TimingTowerDisplay {
    pub session_info: String,
    pub error_message: Option<String>,
    pub rows: Vec<TimingTowerEntry>,
    pub ref_driver_index: usize,
}

impl TimingTowerDisplay {
    /// The display before any standings have arrived.
    pub fn empty() -> (r: Self)
        ensures
            r.session_info@ == "-- / --"@,
            r.error_message is None,
            r.rows@.len() == 0,
            r.ref_driver_index == 0,
    {
        TimingTowerDisplay {
            session_info: string_of("-- / --"),
            error_message: None,
            rows: Vec::new(),
            ref_driver_index: 0,
        }
    }
}

/// A time trial is exactly "Time Trial".
pub open spec fn is_tt_spec(s: Seq<char>) -> bool {
    s == "Time Trial"@
}

/// Whether the session is a time trial.
pub fn is_tt_session(session_type: &str) -> (r: bool)
    ensures
        r == is_tt_spec(session_type@),
{
    str_eq(session_type, "Time Trial")
}

/// The header text, given the session type in upper case: the lap count in a race,
/// the time left ("MM:SS") otherwise.
pub open spec fn session_text(
    upper: Seq<char>,
    race: bool,
    current_lap: Option<u8>,
    total_laps: Option<u8>,
    time_left_sec: Option<u32>,
) -> Seq<char> {
    if race {
        upper + "    |    LAP "@ + decimal(
            match current_lap {
                Some(x) => x as nat,
                None => 0,
            },
        ) + " / "@ + decimal(
            match total_laps {
                Some(x) => x as nat,
                None => 0,
            },
        )
    } else {
        let t: nat = match time_left_sec {
            Some(x) => x as nat,
            None => 0,
        };
        upper + "    |    TIME: "@ + padded_decimal(t / 60, 2) + ":"@ + padded_decimal(t % 60, 2)
    }
}

/// The header text of a snapshot: "----" for an unknown session.
pub open spec fn session_info_text(s: TimingTowerSnapshot) -> Seq<char> {
    let st = s.session_type@;
    if st.len() == 0 || st == "None"@ {
        "----"@
    } else {
        session_text(
            unicode_uppercase(st),
            is_race_type_spec(st),
            s.current_lap,
            s.total_laps,
            s.session_time_left_sec,
        )
    }
}

/// Formats the header from the session type already in upper case.
pub fn format_session_info(
    upper: &str,
    race: bool,
    current_lap: Option<u8>,
    total_laps: Option<u8>,
    time_left_sec: Option<u32>,
) -> (r: String)
    ensures
        r@ == session_text(upper@, race, current_lap, total_laps, time_left_sec),
{
    let mut out = string_of(upper);
    if race {
        push_str(&mut out, "    |    LAP ");
        push_decimal(
            &mut out,
            match current_lap {
                Some(x) => x as u64,
                None => 0,
            },
        );
        push_str(&mut out, " / ");
        push_decimal(
            &mut out,
            match total_laps {
                Some(x) => x as u64,
                None => 0,
            },
        );
    } else {
        let t: u32 = match time_left_sec {
            Some(x) => x,
            None => 0,
        };
        push_str(&mut out, "    |    TIME: ");
        push_padded(&mut out, (t / 60) as u64, 2);
        push_str(&mut out, ":");
        push_padded(&mut out, (t % 60) as u64, 2);
    }
    assert(out@ =~= session_text(upper@, race, current_lap, total_laps, time_left_sec));
    out
}

fn session_info_label(snapshot: &TimingTowerSnapshot) -> (r: String)
    ensures
        r@ == session_info_text(*snapshot),
{
    let session_type = snapshot.session_type.as_str();
    if session_type.is_empty() || str_eq(session_type, "None") {
        return string_of("----");
    }
    let upper = to_uppercase(session_type);
    format_session_info(
        upper.as_str(),
        crate::lap_timer::is_race_type_session(session_type),
        snapshot.current_lap,
        snapshot.total_laps,
        snapshot.session_time_left_sec,
    )
}

/// The positions shown around `position` among `total` cars with `n` cars on each
/// side: as many as fit, shifted to stay within 1..=total.
pub open spec fn window_spec(position: int, total: int, n: int) -> Option<(int, int)> {
    if position == 0 || position > total {
        None
    } else if position <= n {
        Some(
            (
                1,
                if position + n + 1 <= total {
                    position + n + 1
                } else {
                    total
                },
            ),
        )
    } else if position + n > total {
        Some(
            (
                if total - 2 * n >= 1 {
                    total - 2 * n
                } else {
                    1
                },
                total,
            ),
        )
    } else {
        Some((position - n, position + n))
    }
}

/// Whether computing the window around `position` stays within `usize`.
pub open spec fn window_fits(position: int, n: int) -> bool {
    &&& position + n <= usize::MAX
    &&& position <= n ==> position + n + 1 <= usize::MAX
}

/// The range of positions shown around `position` among `total_cars`.
pub fn adjacent_positions(position: usize, total_cars: usize, num_adjacent_cars: usize) -> (r: Option<
    (usize, usize),
>)
    requires
        position == 0 || position > total_cars || window_fits(
            position as int,
            num_adjacent_cars as int,
        ),
    ensures
        match r {
            Some((lo, hi)) => window_spec(
                position as int,
                total_cars as int,
                num_adjacent_cars as int,
            ) == Some((lo as int, hi as int)),
            None => window_spec(
                position as int,
                total_cars as int,
                num_adjacent_cars as int,
            ) is None,
        },
{
    if position == 0 || position > total_cars {
        return None;
    }
    let mut lower_bound = if position > num_adjacent_cars {
        position - num_adjacent_cars
    } else {
        0
    };
    let mut upper_bound = position + num_adjacent_cars;
    if lower_bound == 0 {
        let shift = 1 - lower_bound;
        lower_bound = 1;
        upper_bound = if upper_bound + shift < total_cars {
            upper_bound + shift
        } else {
            total_cars
        };
    }
    if upper_bound > total_cars {
        let shift = upper_bound - total_cars;
        upper_bound = total_cars;
        let lowered = if lower_bound > shift {
            lower_bound - shift
        } else {
            0
        };
        lower_bound = if lowered > 1 {
            lowered
        } else {
            1
        };
    }
    Some((lower_bound, upper_bound))
}

/// The sum of the gaps to the car in front over rows `a..b`.
pub open spec fn range_sum(rows: Seq<TimingTowerEntry>, a: int, b: int) -> int
    decreases b - a,
{
    if b <= a {
        0
    } else {
        range_sum(rows, a, b - 1) + rows[b - 1].delta_to_car_in_front_ms
    }
}

/// The race gap of row `k` to the reference row `r`: minus the gaps between them for
/// cars ahead, the gaps between them for cars behind.
pub open spec fn race_gap(rows: Seq<TimingTowerEntry>, r: int, k: int) -> int {
    if k < r {
        -range_sum(rows, k + 1, r + 1)
    } else {
        range_sum(rows, r + 1, k + 1)
    }
}

/// Whether every partial sum the race gaps add up, left to right, fits `i32`, and every
/// gap to a car ahead can be negated.
pub open spec fn race_sums_fit(rows: Seq<TimingTowerEntry>, r: int) -> bool {
    &&& forall|a: int, b: int|
        1 <= a <= r && a <= b <= r + 1 ==> i32::MIN <= #[trigger] range_sum(rows, a, b)
            <= i32::MAX
    &&& forall|a: int| 1 <= a <= r ==> #[trigger] range_sum(rows, a, r + 1) != i32::MIN
    &&& forall|b: int|
        r + 1 <= b <= rows.len() ==> i32::MIN <= #[trigger] range_sum(rows, r + 1, b)
            <= i32::MAX
}

/// The row index of driver `index` in `rows`, the first when there are several.
pub open spec fn index_in(rows: Seq<TimingTowerEntry>, index: usize) -> Option<int>
    decreases rows.len(),
{
    if rows.len() == 0 {
        None
    } else if rows[0].index == index {
        Some(0)
    } else {
        match index_in(rows.drop_first(), index) {
            Some(i) => Some(i + 1),
            None => None,
        }
    }
}

proof fn lemma_index_in(rows: Seq<TimingTowerEntry>, index: usize)
    ensures
        index_in(rows, index) matches Some(i) ==> 0 <= i < rows.len() && rows[i].index == index
            && forall|j: int| 0 <= j < i ==> rows[j].index != index,
        index_in(rows, index) is None ==> forall|j: int| 0 <= j < rows.len() ==> rows[j].index != index,
    decreases rows.len(),
{
    if rows.len() > 0 {
        lemma_index_in(rows.drop_first(), index);
        assert forall|j: int| 1 <= j < rows.len() implies rows[j] == rows.drop_first()[j - 1] by {}
    }
}

/// `e` with its relative delta set to `d`.
pub open spec fn with_delta(e: TimingTowerEntry, d: Option<i32>) -> TimingTowerEntry {
    TimingTowerEntry { relative_delta_ms: d, ..e }
}

/// The relative delta of row `k` in a race: its gap to the reference row, or its
/// previous value when the reference driver is not among the rows.
pub open spec fn race_row_delta(rows: Seq<TimingTowerEntry>, ref_index: usize, k: int) -> Option<i32> {
    match index_in(rows, ref_index) {
        Some(r) => Some(race_gap(rows, r, k) as i32),
        None => rows[k].relative_delta_ms,
    }
}

/// The relative delta of a row outside a race: its best lap minus the reference's,
/// when both are known and the difference fits `i32`.
pub open spec fn best_lap_delta(row: TimingTowerEntry, ref_best: Option<u32>) -> Option<i32> {
    match (row.best_lap_time_ms, ref_best) {
        (Some(b), Some(rb)) => if i32::MIN <= b - rb <= i32::MAX {
            Some((b - rb) as i32)
        } else {
            None
        },
        _ => None,
    }
}

/// Whether `d` is the error display for `s`.
pub open spec fn error_display(d: TimingTowerDisplay, s: TimingTowerSnapshot) -> bool {
    &&& d.session_info@ == session_info_text(s)
    &&& d.error_message matches Some(m) && m@ == "ERROR: Please check the logs"@
    &&& d.rows@.len() == 0
    &&& d.ref_driver_index == s.ref_driver_index
}

/// Whether `d` is what the tower shows for `s` with `n` cars on each side of the
/// reference driver.
pub open spec fn tower_display_of(d: TimingTowerDisplay, s: TimingTowerSnapshot, n: usize) -> bool {
    let entries = s.table_entries@;
    if entries.len() == 0 {
        &&& d.session_info@ == "-- / --"@
        &&& d.error_message is None
        &&& d.rows@.len() == 0
        &&& d.ref_driver_index == 0
    } else if is_tt_spec(s.session_type@) {
        &&& d.session_info@ == "-- / --"@
        &&& d.error_message matches Some(m) && m@ == "TIME TRIAL NOT YET SUPPORTED"@
        &&& d.rows@.len() == 0
        &&& d.ref_driver_index == s.ref_driver_index
    } else {
        match tower_entry_for(entries, s.ref_driver_index) {
            None => error_display(d, s),
            Some(e) => match window_spec(e.position as int, entries.len() as int, n as int) {
                None => error_display(d, s),
                Some((lo, hi)) => {
                    let rows = entries.subrange(lo - 1, hi);
                    &&& d.session_info@ == session_info_text(s)
                    &&& d.error_message is None
                    &&& d.ref_driver_index == s.ref_driver_index
                    &&& d.rows@.len() == rows.len()
                    &&& forall|k: int|
                        0 <= k < rows.len() ==> #[trigger] d.rows@[k] == with_delta(
                            rows[k],
                            if is_race_type_spec(s.session_type@) {
                                race_row_delta(rows, s.ref_driver_index, k)
                            } else {
                                best_lap_delta(rows[k], e.best_lap_time_ms)
                            },
                        )
                },
            },
        }
    }
}

/// Whether the display arithmetic of `s` stays in range: the window around the
/// reference position, and in a race the sums of the gaps.
pub open spec fn display_fits(s: TimingTowerSnapshot, n: usize) -> bool {
    let entries = s.table_entries@;
    match tower_entry_for(entries, s.ref_driver_index) {
        Some(e) => {
            let pos = e.position as int;
            (!is_tt_spec(s.session_type@) && 1 <= pos <= entries.len()) ==> {
                &&& window_fits(pos, n as int)
                &&& is_race_type_spec(s.session_type@) ==> match window_spec(
                    pos,
                    entries.len() as int,
                    n as int,
                ) {
                    Some((lo, hi)) => {
                        let rows = entries.subrange(lo - 1, hi);
                        index_in(rows, s.ref_driver_index) matches Some(r) ==> race_sums_fit(rows, r)
                    },
                    None => true,
                }
            }
        },
        None => true,
    }
}

fn ref_row_in(entries: &Vec<TimingTowerEntry>, lo: usize, hi: usize, ref_index: usize) -> (r: Option<usize>)
    requires
        1 <= lo <= hi <= entries.len(),
    ensures
        match r {
            Some(i) => index_in(entries@.subrange(lo - 1, hi as int), ref_index) == Some(i as int),
            None => index_in(entries@.subrange(lo - 1, hi as int), ref_index) is None,
        },
{
    let ghost rows = entries@.subrange(lo - 1, hi as int);
    proof {
        lemma_index_in(rows, ref_index);
    }
    let mut k: usize = 0;
    while k < hi - (lo - 1)
        invariant
            rows == entries@.subrange(lo - 1, hi as int),
            1 <= lo <= hi <= entries.len(),
            k <= hi - (lo - 1),
            forall|j: int| 0 <= j < k ==> rows[j].index != ref_index,
            index_in(rows, ref_index) matches Some(i) ==> 0 <= i < rows.len() && rows[i].index
                == ref_index && forall|j: int| 0 <= j < i ==> rows[j].index != ref_index,
            index_in(rows, ref_index) is None ==> forall|j: int|
                0 <= j < rows.len() ==> rows[j].index != ref_index,
        decreases hi - (lo - 1) - k,
    {
        assert(rows[k as int] == entries@[lo - 1 + k]);
        if entries[lo - 1 + k].index == ref_index {
            return Some(k);
        }
        k += 1;
    }
    None
}

proof fn lemma_range_sum_front(rows: Seq<TimingTowerEntry>, a: int, b: int)
    requires
        a < b,
    ensures
        range_sum(rows, a, b) == rows[a].delta_to_car_in_front_ms + range_sum(rows, a + 1, b),
    decreases b - a,
{
    if b - 1 > a {
        lemma_range_sum_front(rows, a, b - 1);
        assert(range_sum(rows, a + 1, b) == range_sum(rows, a + 1, b - 1)
            + rows[b - 1].delta_to_car_in_front_ms);
    } else {
        assert(range_sum(rows, a, a) == 0);
        assert(range_sum(rows, a + 1, b) == 0);
    }
}

fn race_delta(rows_src: &Vec<TimingTowerEntry>, base: usize, len: usize, r: usize, k: usize) -> (d: i32)
    requires
        base + len <= rows_src.len(),
        r < len,
        k < len,
        race_sums_fit(rows_src@.subrange(base as int, base + len), r as int),
    ensures
        d == race_gap(rows_src@.subrange(base as int, base + len), r as int, k as int),
{
    let ghost rows = rows_src@.subrange(base as int, base + len);
    if k == r {
        return 0;
    }
    if k < r {
        let mut acc: i32 = 0;
        let mut t: usize = k + 1;
        while t <= r
            invariant
                rows == rows_src@.subrange(base as int, base + len),
                base + len <= rows_src.len(),
                r < len,
                k < r,
                race_sums_fit(rows, r as int),
                k + 1 <= t <= r + 1,
                acc == range_sum(rows, k + 1, t as int),
            decreases r + 1 - t,
        {
            assert(rows[t as int] == rows_src@[base + t]);
            assert(i32::MIN <= range_sum(rows, k + 1, t + 1) <= i32::MAX);
            acc = acc + rows_src[base + t].delta_to_car_in_front_ms;
            t += 1;
        }
        assert(range_sum(rows, k + 1, r + 1) != i32::MIN);
        -acc
    } else {
        let mut acc: i32 = 0;
        let mut t: usize = r + 1;
        while t <= k
            invariant
                rows == rows_src@.subrange(base as int, base + len),
                base + len <= rows_src.len(),
                r < k,
                k < len,
                race_sums_fit(rows, r as int),
                r + 1 <= t <= k + 1,
                acc == range_sum(rows, r + 1, t as int),
            decreases k + 1 - t,
        {
            assert(rows[t as int] == rows_src@[base + t]);
            assert(i32::MIN <= range_sum(rows, r + 1, t + 1) <= i32::MAX);
            acc = acc + rows_src[base + t].delta_to_car_in_front_ms;
            t += 1;
        }
        acc
    }
}

fn best_delta(row_best: Option<u32>, ref_best: Option<u32>) -> (d: Option<i32>)
    ensures
        d == match (row_best, ref_best) {
            (Some(b), Some(rb)) => if i32::MIN <= b - rb <= i32::MAX {
                Some((b - rb) as i32)
            } else {
                None
            },
            _ => None,
        },
{
    match (row_best, ref_best) {
        (Some(b), Some(rb)) => {
            let diff: i64 = b as i64 - rb as i64;
            if i32::MIN as i64 <= diff && diff <= i32::MAX as i64 {
                Some(diff as i32)
            } else {
                None
            }
        },
        _ => None,
    }
}

impl TimingTowerSnapshot {
    /// What the tower shows with `num_adjacent_cars` cars on each side of the
    /// reference driver.
    pub fn display_state(&self, num_adjacent_cars: usize) -> (r: TimingTowerDisplay)
        requires
            display_fits(*self, num_adjacent_cars),
        ensures
            tower_display_of(r, *self, num_adjacent_cars),
    {
        if self.table_entries.len() == 0 {
            return TimingTowerDisplay::empty();
        }
        if is_tt_session(self.session_type.as_str()) {
            return TimingTowerDisplay {
                session_info: string_of("-- / --"),
                error_message: Some(string_of("TIME TRIAL NOT YET SUPPORTED")),
                rows: Vec::new(),
                ref_driver_index: self.ref_driver_index,
            };
        }
        let reference_entry = match self.reference_entry() {
            Some(e) => e,
            None => {
                return TimingTowerDisplay {
                    session_info: session_info_label(self),
                    error_message: Some(string_of("ERROR: Please check the logs")),
                    rows: Vec::new(),
                    ref_driver_index: self.ref_driver_index,
                };
            },
        };
        let total = self.table_entries.len();
        let (lower_bound, upper_bound) = match adjacent_positions(
            reference_entry.position as usize,
            total,
            num_adjacent_cars,
        ) {
            Some(w) => w,
            None => {
                return TimingTowerDisplay {
                    session_info: session_info_label(self),
                    error_message: Some(string_of("ERROR: Please check the logs")),
                    rows: Vec::new(),
                    ref_driver_index: self.ref_driver_index,
                };
            },
        };
        let reference_best_lap_ms = reference_entry.best_lap_time_ms;
        let race = crate::lap_timer::is_race_type_session(self.session_type.as_str());
        let base = lower_bound - 1;
        let len = upper_bound - base;
        let ghost src = self.table_entries@.subrange(base as int, upper_bound as int);
        let ref_row = ref_row_in(&self.table_entries, lower_bound, upper_bound, self.ref_driver_index);
        let mut rows: Vec<TimingTowerEntry> = Vec::new();
        let mut k: usize = 0;
        while k < len
            invariant
                src == self.table_entries@.subrange(base as int, upper_bound as int),
                base + len == upper_bound,
                upper_bound <= self.table_entries.len(),
                k <= len,
                rows@.len() == k,
                race == is_race_type_spec(self.session_type@),
                match ref_row {
                    Some(i) => index_in(src, self.ref_driver_index) == Some(i as int),
                    None => index_in(src, self.ref_driver_index) is None,
                },
                race ==> (index_in(src, self.ref_driver_index) matches Some(r) ==> race_sums_fit(src, r)),
                forall|j: int|
                    0 <= j < k ==> #[trigger] rows@[j] == with_delta(
                        src[j],
                        if race {
                            race_row_delta(src, self.ref_driver_index, j)
                        } else {
                            best_lap_delta(src[j], reference_best_lap_ms)
                        },
                    ),
            decreases len - k,
        {
            let mut row = self.table_entries[base + k].clone();
            assert(row == src[k as int]);
            if race {
                match ref_row {
                    Some(r) => {
                        proof {
                            lemma_index_in(src, self.ref_driver_index);
                        }
                        row.relative_delta_ms = Some(race_delta(&self.table_entries, base, len, r, k));
                    },
                    None => {},
                }
            } else {
                row.relative_delta_ms = best_delta(row.best_lap_time_ms, reference_best_lap_ms);
            }
            rows.push(row);
            k += 1;
        }
        TimingTowerDisplay {
            session_info: session_info_label(self),
            error_message: None,
            rows,
            ref_driver_index: self.ref_driver_index,
        }
    }
}

fn fits_i32(x: i64) -> (r: bool)
    ensures
        r == (i32::MIN <= x <= i32::MAX),
{
    i32::MIN as i64 <= x && x <= i32::MAX as i64
}

/// Whether the partial sums the race gaps add up all fit `i32`.
fn race_sums_fit_check(src: &Vec<TimingTowerEntry>, base: usize, len: usize, r: usize) -> (ok: bool)
    requires
        base + len <= src.len(),
        r < len,
    ensures
        ok == race_sums_fit(src@.subrange(base as int, base + len), r as int),
{
    let ghost rows = src@.subrange(base as int, base + len);
    let mut a: usize = 1;
    while a <= r
        invariant
            rows == src@.subrange(base as int, base + len),
            base + len <= src.len(),
            r < len,
            1 <= a <= r + 1,
            forall|a2: int, b: int|
                1 <= a2 < a && a2 <= b <= r + 1 ==> i32::MIN <= #[trigger] range_sum(rows, a2, b)
                    <= i32::MAX,
            forall|a2: int| 1 <= a2 < a ==> #[trigger] range_sum(rows, a2, r + 1) != i32::MIN,
        decreases r + 1 - a,
    {
        let mut acc: i64 = 0;
        let mut t: usize = a;
        while t <= r
            invariant
                rows == src@.subrange(base as int, base + len),
                base + len <= src.len(),
                r < len,
                1 <= a <= r,
                a <= t <= r + 1,
                acc == range_sum(rows, a as int, t as int),
                forall|b: int| a <= b <= t ==> i32::MIN <= #[trigger] range_sum(rows, a as int, b)
                    <= i32::MAX,
            decreases r + 1 - t,
        {
            assert(rows[t as int] == src@[base + t]);
            acc = acc + src[base + t].delta_to_car_in_front_ms as i64;
            if !fits_i32(acc) {
                assert(!(i32::MIN <= range_sum(rows, a as int, t + 1) <= i32::MAX));
                return false;
            }
            t += 1;
        }
        if acc == i32::MIN as i64 {
            return false;
        }
        a += 1;
    }
    let mut acc: i64 = 0;
    let mut t: usize = r + 1;
    while t < len
        invariant
            rows == src@.subrange(base as int, base + len),
            base + len <= src.len(),
            r < len,
            r + 1 <= t <= len,
            acc == range_sum(rows, r + 1, t as int),
            forall|b: int| r + 1 <= b <= t ==> i32::MIN <= #[trigger] range_sum(rows, r + 1, b)
                <= i32::MAX,
        decreases len - t,
    {
        assert(rows[t as int] == src@[base + t]);
        acc = acc + src[base + t].delta_to_car_in_front_ms as i64;
        if !fits_i32(acc) {
            assert(!(i32::MIN <= range_sum(rows, r + 1, t + 1) <= i32::MAX));
            return false;
        }
        t += 1;
    }
    true
}

impl TimingTowerSnapshot {
    /// Whether `display_state(num_adjacent_cars)` computes within range: its window
    /// around the reference position and, in a race, the sums of the gaps.
    pub fn display_arithmetic_fits(&self, num_adjacent_cars: usize) -> (r: bool)
        ensures
            r == display_fits(*self, num_adjacent_cars),
    {
        let e = match self.reference_entry() {
            Some(e) => e,
            None => return true,
        };
        let pos = e.position as usize;
        let total = self.table_entries.len();
        if is_tt_session(self.session_type.as_str()) || pos < 1 || pos > total {
            return true;
        }
        if num_adjacent_cars > usize::MAX - pos {
            return false;
        }
        if pos <= num_adjacent_cars && pos + num_adjacent_cars == usize::MAX {
            return false;
        }
        if !crate::lap_timer::is_race_type_session(self.session_type.as_str()) {
            return true;
        }
        let (lo, hi) = match adjacent_positions(pos, total, num_adjacent_cars) {
            Some(w) => w,
            None => return true,
        };
        proof {
            law_window_bounds(pos as int, total as int, num_adjacent_cars as int);
            lemma_index_in(self.table_entries@.subrange(lo - 1, hi as int), self.ref_driver_index);
        }
        match ref_row_in(&self.table_entries, lo, hi, self.ref_driver_index) {
            None => true,
            Some(r) => race_sums_fit_check(&self.table_entries, lo - 1, hi - (lo - 1), r),
        }
    }
}

// ---------------------------------------------------------------------------
// Laws of the tower

/// The window always holds the reference position and stays within 1..=total. It
/// holds `2n + 1` positions, or all of them when there are fewer, except when the
/// reference is within the first `n - 1` positions and more than `position + n + 1`
/// cars run: the window then stops at `position + n + 1`.
pub proof fn law_window_bounds(position: int, total: int, n: int)
    requires
        1 <= position <= total,
        n >= 0,
    ensures
        window_spec(position, total, n) matches Some((lo, hi)) && 1 <= lo <= position <= hi
            <= total,
        (position >= n || total <= position + n + 1) ==> (window_spec(position, total, n) matches Some((lo, hi)) && hi - lo + 1
            == if 2 * n + 1 <= total {
            2 * n + 1
        } else {
            total
        }),
{
}

/// Race gaps add up: the reference row's gap is zero, and the gaps of two consecutive
/// rows differ by the second row's gap to the car in front.
pub proof fn law_race_gaps_add_up(rows: Seq<TimingTowerEntry>, r: int, k: int)
    requires
        0 <= r < rows.len(),
        0 <= k,
        k + 1 < rows.len(),
    ensures
        race_gap(rows, r, r) == 0,
        race_gap(rows, r, k + 1) - race_gap(rows, r, k) == rows[k + 1].delta_to_car_in_front_ms,
{
    assert(range_sum(rows, r + 1, r + 1) == 0);
    if k + 1 < r {
        lemma_range_sum_front(rows, k + 1, r + 1);
    } else if k + 1 == r {
        lemma_range_sum_front(rows, k + 1, r + 1);
        assert(range_sum(rows, k + 2, r + 1) == 0);
    }
}

/// In a race display that holds the reference driver, the reference row shows no gap
/// and consecutive rows' gaps differ by the second row's gap to the car in front.
pub proof fn law_race_display_gaps(d: TimingTowerDisplay, s: TimingTowerSnapshot, n: usize, j: int, k: int)
    requires
        tower_display_of(d, s, n),
        display_fits(s, n),
        is_race_type_spec(s.session_type@),
        d.error_message is None,
        0 <= j < d.rows@.len(),
        d.rows@[j].index == s.ref_driver_index,
        forall|t: int| 0 <= t < j ==> d.rows@[t].index != s.ref_driver_index,
        0 <= k,
        k + 1 < d.rows@.len(),
    ensures
        d.rows@[j].relative_delta_ms == Some(0i32),
        d.rows@[k + 1].relative_delta_ms matches Some(y) && d.rows@[k].relative_delta_ms matches Some(x)
            && y - x == d.rows@[k + 1].delta_to_car_in_front_ms,
{
    let entries = s.table_entries@;
    let e = tower_entry_for(entries, s.ref_driver_index)->0;
    let (lo, hi) = window_spec(e.position as int, entries.len() as int, n as int)->0;
    let rows = entries.subrange(lo - 1, hi);
    assert(d.rows@[j] == with_delta(rows[j], race_row_delta(rows, s.ref_driver_index, j)));
    assert(d.rows@[k] == with_delta(rows[k], race_row_delta(rows, s.ref_driver_index, k)));
    assert(d.rows@[k + 1] == with_delta(rows[k + 1], race_row_delta(rows, s.ref_driver_index, k + 1)));
    assert forall|t: int| 0 <= t < rows.len() implies rows[t].index == d.rows@[t].index by {
        assert(d.rows@[t] == with_delta(rows[t], race_row_delta(rows, s.ref_driver_index, t)));
    }
    lemma_index_in(rows, s.ref_driver_index);
    let r = index_in(rows, s.ref_driver_index)->0;
    assert(r == j);
    assert(race_sums_fit(rows, r));
    law_race_gaps_add_up(rows, r, k);
    assert forall|t: int| 0 <= t < rows.len() implies i32::MIN <= #[trigger] race_gap(rows, r, t)
        <= i32::MAX by {
        if t < r {
            assert(i32::MIN <= range_sum(rows, t + 1, r + 1) <= i32::MAX);
            assert(range_sum(rows, t + 1, r + 1) != i32::MIN);
        } else {
            assert(i32::MIN <= range_sum(rows, r + 1, t + 1) <= i32::MAX);
        }
    }
    assert(i32::MIN <= race_gap(rows, r, k) <= i32::MAX);
    assert(i32::MIN <= race_gap(rows, r, k + 1) <= i32::MAX);
}


proof fn lemma_tower_entry_for_first(entries: Seq<TimingTowerEntry>, index: usize, i: int)
    requires
        0 <= i < entries.len(),
        entries[i].index == index,
        forall|t: int| 0 <= t < i ==> entries[t].index != index,
    ensures
        tower_entry_for(entries, index) == Some(entries[i]),
    decreases i,
{
    if i > 0 {
        assert(entries[0].index != index);
        let rest = entries.drop_first();
        assert forall|t: int| 0 <= t < i - 1 implies rest[t].index != index by {
            assert(rest[t] == entries[t + 1]);
        }
        lemma_tower_entry_for_first(rest, index, i - 1);
    }
}

/// Outside a race, a displayed row's gap is its best lap minus the best lap of the
/// reference driver (the first entry with the reference index); it is absent whenever
/// either best lap is unknown.
pub proof fn law_best_lap_gaps(d: TimingTowerDisplay, s: TimingTowerSnapshot, n: usize, i: int, j: int)
    requires
        tower_display_of(d, s, n),
        !has_infix(s.session_type@, "Race"@),
        d.error_message is None,
        0 <= i < s.table_entries@.len(),
        s.table_entries@[i].index == s.ref_driver_index,
        forall|t: int| 0 <= t < i ==> s.table_entries@[t].index != s.ref_driver_index,
        0 <= j < d.rows@.len(),
    ensures
        s.table_entries@[i].best_lap_time_ms is None ==> d.rows@[j].relative_delta_ms is None,
        d.rows@[j].best_lap_time_ms is None ==> d.rows@[j].relative_delta_ms is None,
        d.rows@[j].relative_delta_ms matches Some(x) ==> (d.rows@[j].best_lap_time_ms matches Some(b)
            && s.table_entries@[i].best_lap_time_ms matches Some(rb) && x == b - rb),
        (d.rows@[j].best_lap_time_ms matches Some(b) && s.table_entries@[i].best_lap_time_ms matches Some(
            rb,
        ) && i32::MIN <= b - rb <= i32::MAX) ==> d.rows@[j].relative_delta_ms is Some,
{
    let entries = s.table_entries@;
    lemma_tower_entry_for_first(entries, s.ref_driver_index, i);
    let e = entries[i];
    let (lo, hi) = window_spec(e.position as int, entries.len() as int, n as int)->0;
    let rows = entries.subrange(lo - 1, hi);
    assert(d.rows@[j] == with_delta(rows[j], best_lap_delta(rows[j], e.best_lap_time_ms)));
}

/// An entry's telemetry is public exactly when its driver information names the
/// telemetry setting "Public"; any other setting, or none, reads as restricted.
pub proof fn law_public_telemetry(e: TimingTowerEntry, v: JsonValue)
    requires
        tower_entry_of(e, v),
    ensures
        e.telemetry_public <==> (field_of(field(v, "driver-info"@), "telemetry-setting"@) matches Some(
            JsonValue::Str(setting),
        ) && setting@ == "Public"@),
{
}

} // verus!
