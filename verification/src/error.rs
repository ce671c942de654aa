//! The error a telemetry document is refused with.

use vstd::prelude::*;
use crate::text::{push_str, string_of};

verus! {

/// Why a telemetry document could not be turned into a snapshot.
#[derive(Debug, Clone, PartialEq)]
pub enum TelemetryParseError {
    /// A required field is absent or has the wrong type.
    MissingField(&'static str),
    /// None of several alternative fields is present.
    MissingAnyField(&'static [&'static str]),
    /// A field is present but names nothing the document holds.
    InvalidField(&'static str),
}

/// `parts` joined with `sep` between consecutive parts.
pub open spec fn joined(parts: Seq<Seq<char>>, sep: Seq<char>) -> Seq<char>
    decreases parts.len(),
{
    if parts.len() == 0 {
        Seq::empty()
    } else if parts.len() == 1 {
        parts[0]
    } else {
        joined(parts.drop_last(), sep) + sep + parts.last()
    }
}

impl TelemetryParseError {
    /// Whether this error reports the field `name` as missing.
    pub open spec fn is_missing(self, name: Seq<char>) -> bool {
        self matches TelemetryParseError::MissingField(f) && f@ == name
    }

    /// Whether this error reports the field `name` as invalid.
    pub open spec fn is_invalid(self, name: Seq<char>) -> bool {
        self matches TelemetryParseError::InvalidField(f) && f@ == name
    }

    /// The human-readable text of the error.
    pub open spec fn message_spec(self) -> Seq<char> {
        match self {
            TelemetryParseError::MissingField(f) => "missing telemetry field '"@ + f@ + "'"@,
            TelemetryParseError::MissingAnyField(fs) => "missing telemetry field, expected one of: "@
                + joined(fs@.map_values(|f: &str| f@), ", "@),
            TelemetryParseError::InvalidField(f) => "invalid telemetry field '"@ + f@ + "'"@,
        }
    }

    /// The human-readable text of the error.
    pub fn message(&self) -> (r: String)
        ensures
            r@ == self.message_spec(),
    {
        match self {
            TelemetryParseError::MissingField(f) => {
                let mut out = string_of("missing telemetry field '");
                push_str(&mut out, f);
                push_str(&mut out, "'");
                out
            },
            TelemetryParseError::MissingAnyField(fs) => {
                let mut out = string_of("missing telemetry field, expected one of: ");
                let ghost start = out@;
                let ghost views = fs@.map_values(|f: &str| f@);
                let mut i: usize = 0;
                while i < fs.len()
                    invariant
                        views == fs@.map_values(|f: &str| f@),
                        i <= fs.len(),
                        out@ == start + joined(views.take(i as int), ", "@),
                    decreases fs.len() - i,
                {
                    if i > 0 {
                        push_str(&mut out, ", ");
                    }
                    push_str(&mut out, fs[i]);
                    assert(views.take(i + 1).drop_last() =~= views.take(i as int));
                    assert(views.take(i as int).len() == 0 ==> views.take(i as int) =~= Seq::<
                        Seq<char>,
                    >::empty());
                    i += 1;
                }
                assert(views.take(fs.len() as int) =~= views);
                out
            },
            TelemetryParseError::InvalidField(f) => {
                let mut out = string_of("invalid telemetry field '");
                push_str(&mut out, f);
                push_str(&mut out, "'");
                out
            },
        }
    }
}

} // verus!
