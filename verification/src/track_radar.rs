//! The track radar payload: the reference car and every car's position and heading.

use vstd::prelude::*;
use crate::error::TelemetryParseError;
use crate::json::{
    array_of, field, field_of, first_failure, lemma_first_failure_prefix, lemma_first_failure_step,
    number_of, opt, optional_u8, optional_usize, str_of, u8_of, usize_of, value_usize, JsonValue,
};
use crate::text::string_of;

verus! {

/// A position in the world, each coordinate the bit pattern of a double.
#[derive(Debug, Clone, Copy, PartialEq)]
pub struct RadarVector3 {
    pub x: u64,
    pub y: u64,
    pub z: u64,
}

/// Where a car is and where it points (the yaw in radians, as a double's bit pattern).
#[derive(Debug, Clone, Copy, PartialEq)]
pub struct RadarDriverMotion {
    pub world_position: RadarVector3,
    pub yaw: u64,
}

/// One car on the radar.
#[derive(Debug, PartialEq)]
pub struct RadarDriver {
    pub name: String,
    pub team: Option<String>,
    pub track_position: Option<u8>,
    pub index: usize,
    pub motion: Option<RadarDriverMotion>,
}

/// What the radar reads from one payload.
#[derive(Debug, PartialEq)]
pub struct TrackRadarSnapshot {
    pub ref_index: usize,
    pub drivers: Vec<RadarDriver>,
}

/// The bit pattern of the number `v` holds.
pub open spec fn bits_of_number(v: Option<JsonValue>) -> Option<u64> {
    match number_of(v) {
        Some(n) => Some(n.f64_bits),
        None => None,
    }
}

/// The name of the first field a motion value lacks; none for `null`.
pub open spec fn motion_missing(m: Option<JsonValue>) -> Option<Seq<char>> {
    match m {
        None => Some("motion"@),
        Some(JsonValue::Null) => None,
        Some(x) => {
            let wp = field(x, "world-position"@);
            let orientation = field(x, "orientation"@);
            if wp is None {
                Some("world-position"@)
            } else if orientation is None {
                Some("orientation"@)
            } else if number_of(field_of(wp, "x"@)) is None {
                Some("world-position.x"@)
            } else if number_of(field_of(wp, "y"@)) is None {
                Some("world-position.y"@)
            } else if number_of(field_of(wp, "z"@)) is None {
                Some("world-position.z"@)
            } else if number_of(field_of(orientation, "yaw"@)) is None {
                Some("orientation.yaw"@)
            } else {
                None
            }
        },
    }
}

/// Whether `motion` is what the motion value `m` describes.
pub open spec fn motion_of(motion: Option<RadarDriverMotion>, m: Option<JsonValue>) -> bool {
    match m {
        Some(JsonValue::Null) => motion is None,
        _ => {
            let wp = field_of(m, "world-position"@);
            let orientation = field_of(m, "orientation"@);
            &&& motion matches Some(mo)
            &&& bits_of_number(field_of(wp, "x"@)) == Some(mo.world_position.x)
            &&& bits_of_number(field_of(wp, "y"@)) == Some(mo.world_position.y)
            &&& bits_of_number(field_of(wp, "z"@)) == Some(mo.world_position.z)
            &&& bits_of_number(field_of(orientation, "yaw"@)) == Some(mo.yaw)
        },
    }
}

/// The name of the first field a car lacks, in the order they are read.
pub open spec fn driver_missing(v: JsonValue) -> Option<Seq<char>> {
    if str_of(field(v, "name"@)) is None {
        Some("name"@)
    } else if usize_of(field(v, "index"@)) is None {
        Some("index"@)
    } else {
        motion_missing(field(v, "motion"@))
    }
}

/// The check each car document passes.
pub open spec fn driver_check() -> spec_fn(JsonValue) -> Option<Seq<char>> {
    |x: JsonValue| driver_missing(x)
}

/// Whether `d` is the car that `v` describes.
pub open spec fn driver_of(d: RadarDriver, v: JsonValue) -> bool {
    &&& str_of(field(v, "name"@)) == Some(d.name@)
    &&& match str_of(field(v, "team"@)) {
        Some(t) => d.team matches Some(x) && x@ == t,
        None => d.team is None,
    }
    &&& d.track_position == u8_of(field(v, "track-position"@))
    &&& usize_of(field(v, "index"@)) == Some(d.index)
    &&& motion_of(d.motion, field(v, "motion"@))
}

/// The car documents of a payload.
pub open spec fn radar_items(v: JsonValue) -> Seq<JsonValue> {
    match array_of(field(v, "motion"@)) {
        Some(items) => items,
        None => Seq::empty(),
    }
}

/// The name of the first field a payload lacks, in the order they are read.
pub open spec fn radar_missing(v: JsonValue) -> Option<Seq<char>> {
    if usize_of(field(v, "ref-index"@)) is None {
        Some("ref-index"@)
    } else if array_of(field(v, "motion"@)) is None {
        Some("motion"@)
    } else {
        first_failure(radar_items(v), driver_check())
    }
}

fn number_bits(value: Option<&JsonValue>, name: &'static str) -> (r: Result<u64, TelemetryParseError>)
    ensures
        match bits_of_number(opt(value)) {
            Some(b) => r == Ok::<u64, TelemetryParseError>(b),
            None => r matches Err(e) && e.is_missing(name@),
        },
{
    match value {
        Some(v) => match v.as_number() {
            Some(n) => Ok(n.f64_bits),
            None => Err(TelemetryParseError::MissingField(name)),
        },
        None => Err(TelemetryParseError::MissingField(name)),
    }
}

fn parse_motion(value: Option<&JsonValue>) -> (r: Result<Option<RadarDriverMotion>, TelemetryParseError>)
    ensures
        match motion_missing(opt(value)) {
            Some(name) => r matches Err(e) && e.is_missing(name),
            None => r matches Ok(m) && motion_of(m, opt(value)),
        },
{
    let value = match value {
        Some(v) => v,
        None => return Err(TelemetryParseError::MissingField("motion")),
    };
    if value.is_null() {
        return Ok(None);
    }
    let world_position = match value.get("world-position") {
        Some(w) => w,
        None => return Err(TelemetryParseError::MissingField("world-position")),
    };
    let orientation = match value.get("orientation") {
        Some(o) => o,
        None => return Err(TelemetryParseError::MissingField("orientation")),
    };
    let x = number_bits(world_position.get("x"), "world-position.x")?;
    let y = number_bits(world_position.get("y"), "world-position.y")?;
    let z = number_bits(world_position.get("z"), "world-position.z")?;
    let yaw = number_bits(orientation.get("yaw"), "orientation.yaw")?;
    Ok(Some(RadarDriverMotion { world_position: RadarVector3 { x, y, z }, yaw }))
}

/// Reads one car.
pub fn parse_driver(value: &JsonValue) -> (r: Result<RadarDriver, TelemetryParseError>)
    ensures
        match driver_missing(*value) {
            Some(name) => r matches Err(e) && e.is_missing(name),
            None => r matches Ok(d) && driver_of(d, *value),
        },
{
    let name = match value.get("name") {
        Some(v) => match v.as_str() {
            Some(s) => string_of(s),
            None => return Err(TelemetryParseError::MissingField("name")),
        },
        None => return Err(TelemetryParseError::MissingField("name")),
    };
    let team = match value.get("team") {
        Some(v) => match v.as_str() {
            Some(s) => Some(string_of(s)),
            None => None,
        },
        None => None,
    };
    let track_position = optional_u8(value.get("track-position"));
    let index = value_usize(value, "index")?;
    let motion = parse_motion(value.get("motion"))?;
    Ok(RadarDriver { name, team, track_position, index, motion })
}

impl TrackRadarSnapshot {
    /// Reads the radar payload.
    pub fn from_stream_overlay_value(value: &JsonValue) -> (r: Result<Self, TelemetryParseError>)
        ensures
            match radar_missing(*value) {
                Some(name) => r matches Err(e) && e.is_missing(name),
                None => r matches Ok(s) && {
                    &&& usize_of(field(*value, "ref-index"@)) == Some(s.ref_index)
                    &&& s.drivers@.len() == radar_items(*value).len()
                    &&& forall|j: int|
                        0 <= j < s.drivers@.len() ==> driver_of(
                            #[trigger] s.drivers@[j],
                            radar_items(*value)[j],
                        )
                },
            },
    {
        let ref_index = match optional_usize(value.get("ref-index")) {
            Some(k) => k,
            None => return Err(TelemetryParseError::MissingField("ref-index")),
        };
        let items = match value.get("motion") {
            Some(v) => match v.as_array() {
                Some(items) => items,
                None => return Err(TelemetryParseError::MissingField("motion")),
            },
            None => return Err(TelemetryParseError::MissingField("motion")),
        };
        let ghost check = driver_check();
        let mut drivers: Vec<RadarDriver> = Vec::new();
        let mut i: usize = 0;
        assert(items@.take(0) =~= Seq::<JsonValue>::empty());
        while i < items.len()
            invariant
                items@ == radar_items(*value),
                check == driver_check(),
                usize_of(field(*value, "ref-index"@)) == Some(ref_index),
                array_of(field(*value, "motion"@)) is Some,
                i <= items.len(),
                drivers@.len() == i,
                first_failure(items@.take(i as int), check) is None,
                forall|j: int| 0 <= j < i ==> driver_of(#[trigger] drivers@[j], items@[j]),
            decreases items.len() - i,
        {
            proof {
                lemma_first_failure_step(items@, check, i as int);
            }
            match parse_driver(&items[i]) {
                Ok(d) => drivers.push(d),
                Err(err) => {
                    proof {
                        lemma_first_failure_prefix(items@, check, i + 1);
                    }
                    return Err(err);
                },
            }
            i += 1;
        }
        assert(items@.take(items.len() as int) =~= items@);
        Ok(TrackRadarSnapshot { ref_index, drivers })
    }

    /// The reference car's motion: refused when no car has the reference index, or
    /// when that car has no motion.
    pub fn reference_motion(&self) -> (r: Result<RadarDriverMotion, TelemetryParseError>)
        ensures
            match radar_entry_for(self.drivers@, self.ref_index) {
                None => r matches Err(e) && e.is_invalid("ref-index"@),
                Some(d) => match d.motion {
                    Some(m) => r == Ok::<RadarDriverMotion, TelemetryParseError>(m),
                    None => r matches Err(e) && e.is_invalid("motion"@),
                },
            },
    {
        let mut i: usize = 0;
        assert(self.drivers@.skip(0) =~= self.drivers@);
        while i < self.drivers.len()
            invariant
                i <= self.drivers.len(),
                radar_entry_for(self.drivers@, self.ref_index) == radar_entry_for(
                    self.drivers@.skip(i as int),
                    self.ref_index,
                ),
            decreases self.drivers.len() - i,
        {
            assert(self.drivers@.skip(i as int)[0] == self.drivers@[i as int]);
            let d = &self.drivers[i];
            if d.index == self.ref_index {
                return match d.motion {
                    Some(m) => Ok(m),
                    None => Err(TelemetryParseError::InvalidField("motion")),
                };
            }
            assert(self.drivers@.skip(i as int).drop_first() =~= self.drivers@.skip(i + 1));
            i += 1;
        }
        Err(TelemetryParseError::InvalidField("ref-index"))
    }
}

/// The first car of `drivers` with index `index`.
pub open spec fn radar_entry_for(drivers: Seq<RadarDriver>, index: usize) -> Option<RadarDriver>
    decreases drivers.len(),
{
    if drivers.len() == 0 {
        None
    } else if drivers[0].index == index {
        Some(drivers[0])
    } else {
        radar_entry_for(drivers.drop_first(), index)
    }
}

} // verus!
