//! What the overlays paint: colours and labels derived from the standings.

use vstd::prelude::*;
use crate::text::{
    ascii_lowercase, chars_of, decimal, has_infix, push_char, push_decimal, push_str, str_contains,
    str_eq, string_of, to_ascii_lowercase, to_uppercase, unicode_uppercase,
};
use crate::timing_tower::TimingTowerEntry;
use vstd::string::StringSliceAdditionalSpecFns;

verus! {

/// An opaque RGB colour.
#[derive(Debug, Clone, Copy, PartialEq, Eq, Structural)]
pub struct Rgb {
    pub r: u8,
    pub g: u8,
    pub b: u8,
}

/// A colour from its three channels.
pub open spec fn rgb(r: u8, g: u8, b: u8) -> Rgb {
    Rgb { r, g, b }
}

/// The colour of a sector status: grey when not yet run (-2), red when invalid (-1),
/// yellow (0), green (1), purple (2), dark grey otherwise.
pub open spec fn sector_color_spec(status: i32) -> Rgb {
    if status == -2 {
        rgb(108, 117, 125)
    } else if status == -1 {
        rgb(220, 53, 69)
    } else if status == 0 {
        rgb(255, 193, 7)
    } else if status == 1 {
        rgb(40, 167, 69)
    } else if status == 2 {
        rgb(128, 0, 128)
    } else {
        rgb(50, 50, 50)
    }
}

/// The colour of a sector status.
pub fn sector_color(status: i32) -> (r: Rgb)
    ensures
        r == sector_color_spec(status),
{
    match status {
        -2 => Rgb { r: 108, g: 117, b: 125 },
        -1 => Rgb { r: 220, g: 53, b: 69 },
        0 => Rgb { r: 255, g: 193, b: 7 },
        1 => Rgb { r: 40, g: 167, b: 69 },
        2 => Rgb { r: 128, g: 0, b: 128 },
        _ => Rgb { r: 50, g: 50, b: 50 },
    }
}

/// The team colours, picked by a hash of the team name.
pub open spec fn palette(i: nat) -> Rgb {
    if i == 0 {
        rgb(232, 65, 24)
    } else if i == 1 {
        rgb(243, 156, 18)
    } else if i == 2 {
        rgb(241, 196, 15)
    } else if i == 3 {
        rgb(46, 204, 113)
    } else if i == 4 {
        rgb(26, 188, 156)
    } else if i == 5 {
        rgb(52, 152, 219)
    } else if i == 6 {
        rgb(41, 128, 185)
    } else if i == 7 {
        rgb(155, 89, 182)
    } else if i == 8 {
        rgb(192, 57, 43)
    } else if i == 9 {
        rgb(127, 140, 141)
    } else if i == 10 {
        rgb(230, 126, 34)
    } else {
        rgb(22, 160, 133)
    }
}

/// The hash of a team name's UTF-8 bytes: times 33 plus the next byte, wrapping at 2^32.
pub open spec fn team_hash(bytes: Seq<u8>) -> u32
    decreases bytes.len(),
{
    if bytes.len() == 0 {
        0
    } else {
        ((team_hash(bytes.drop_last()) as nat * 33 + bytes.last() as nat) % 0x1_0000_0000) as u32
    }
}

fn palette_color(i: u32) -> (r: Rgb)
    requires
        i < 12,
    ensures
        r == palette(i as nat),
{
    match i {
        0 => Rgb { r: 232, g: 65, b: 24 },
        1 => Rgb { r: 243, g: 156, b: 18 },
        2 => Rgb { r: 241, g: 196, b: 15 },
        3 => Rgb { r: 46, g: 204, b: 113 },
        4 => Rgb { r: 26, g: 188, b: 156 },
        5 => Rgb { r: 52, g: 152, b: 219 },
        6 => Rgb { r: 41, g: 128, b: 185 },
        7 => Rgb { r: 155, g: 89, b: 182 },
        8 => Rgb { r: 192, g: 57, b: 43 },
        9 => Rgb { r: 127, g: 140, b: 141 },
        10 => Rgb { r: 230, g: 126, b: 34 },
        _ => Rgb { r: 22, g: 160, b: 133 },
    }
}

/// The colour of a team's marker.
pub fn team_color(team: &str) -> (r: Rgb)
    ensures
        r == palette((team_hash(team.spec_bytes()) % 12) as nat),
{
    let bytes = team.as_bytes();
    let mut hash: u32 = 0;
    let mut i: usize = 0;
    while i < bytes.len()
        invariant
            bytes@ == team.spec_bytes(),
            i <= bytes@.len(),
            hash == team_hash(bytes@.take(i as int)),
        decreases bytes.len() - i,
    {
        assert(bytes@.take(i + 1).drop_last() =~= bytes@.take(i as int));
        hash = ((hash as u64 * 33 + bytes[i] as u64) % 0x1_0000_0000) as u32;
        i += 1;
    }
    assert(bytes@.take(bytes.len() as int) =~= bytes@);
    palette_color(hash % 12)
}

/// The compound family a tyre name mentions, checked in this order.
pub open spec fn compound_family(c: Seq<char>) -> int {
    let n = ascii_lowercase(c);
    if has_infix(n, "soft"@) {
        0
    } else if has_infix(n, "medium"@) {
        1
    } else if has_infix(n, "hard"@) {
        2
    } else if has_infix(n, "inter"@) {
        3
    } else if has_infix(n, "wet"@) {
        4
    } else {
        5
    }
}

fn family(compound: &str) -> (r: u8)
    ensures
        r == compound_family(compound@),
{
    let lower = to_ascii_lowercase(compound);
    let n = lower.as_str();
    if str_contains(n, "soft") {
        0
    } else if str_contains(n, "medium") {
        1
    } else if str_contains(n, "hard") {
        2
    } else if str_contains(n, "inter") {
        3
    } else if str_contains(n, "wet") {
        4
    } else {
        5
    }
}

/// The colour of a tyre compound: red soft, yellow medium, white hard, green
/// intermediate, blue wet, grey otherwise.
pub open spec fn compound_color_spec(c: Seq<char>) -> Rgb {
    let f = compound_family(c);
    if f == 0 {
        rgb(255, 64, 64)
    } else if f == 1 {
        rgb(255, 224, 64)
    } else if f == 2 {
        rgb(224, 224, 224)
    } else if f == 3 {
        rgb(80, 200, 120)
    } else if f == 4 {
        rgb(64, 164, 223)
    } else {
        rgb(180, 180, 180)
    }
}

/// The colour of a tyre compound.
pub fn compound_color(compound: &str) -> (r: Rgb)
    ensures
        r == compound_color_spec(compound@),
{
    match family(compound) {
        0 => Rgb { r: 255, g: 64, b: 64 },
        1 => Rgb { r: 255, g: 224, b: 64 },
        2 => Rgb { r: 224, g: 224, b: 224 },
        3 => Rgb { r: 80, g: 200, b: 120 },
        4 => Rgb { r: 64, g: 164, b: 223 },
        _ => Rgb { r: 180, g: 180, b: 180 },
    }
}

/// The letter on a tyre: S, M, H, I or W for the known families, else the first
/// character in upper case, or "?" for an empty name.
pub open spec fn compound_label_spec(c: Seq<char>) -> Seq<char> {
    let f = compound_family(c);
    if f == 0 {
        "S"@
    } else if f == 1 {
        "M"@
    } else if f == 2 {
        "H"@
    } else if f == 3 {
        "I"@
    } else if f == 4 {
        "W"@
    } else if c.len() > 0 {
        unicode_uppercase(seq![c[0]])
    } else {
        "?"@
    }
}

/// The letter on a tyre.
pub fn compound_label(compound: &str) -> (r: String)
    ensures
        r@ == compound_label_spec(compound@),
{
    match family(compound) {
        0 => string_of("S"),
        1 => string_of("M"),
        2 => string_of("H"),
        3 => string_of("I"),
        4 => string_of("W"),
        _ => {
            let cs = chars_of(compound);
            if cs.len() == 0 {
                string_of("?")
            } else {
                let mut first = String::new();
                push_char(&mut first, cs[0]);
                assert(first@ =~= seq![compound@[0]]);
                to_uppercase(first.as_str())
            }
        },
    }
}

/// The colour of an ERS deployment mode: yellow medium, green hotlap, red overtake,
/// grey otherwise.
pub open spec fn ers_mode_color_spec(mode: Seq<char>) -> Rgb {
    if mode == "Medium"@ {
        rgb(255, 255, 0)
    } else if mode == "Hotlap"@ {
        rgb(0, 255, 0)
    } else if mode == "Overtake"@ {
        rgb(255, 0, 0)
    } else {
        rgb(136, 136, 136)
    }
}

/// The colour of an ERS deployment mode.
pub fn ers_mode_color(mode: &str) -> (r: Rgb)
    ensures
        r == ers_mode_color_spec(mode@),
{
    if str_eq(mode, "Medium") {
        Rgb { r: 255, g: 255, b: 0 }
    } else if str_eq(mode, "Hotlap") {
        Rgb { r: 0, g: 255, b: 0 }
    } else if str_eq(mode, "Overtake") {
        Rgb { r: 255, g: 0, b: 0 }
    } else {
        Rgb { r: 136, g: 136, b: 136 }
    }
}

/// `text` when it has at most `max_chars` characters; otherwise its first
/// `max_chars - 3` characters (none when `max_chars < 3`) followed by "...".
pub open spec fn elided(text: Seq<char>, max_chars: nat) -> Seq<char> {
    if text.len() <= max_chars {
        text
    } else {
        text.take(
            if max_chars >= 3 {
                max_chars - 3
            } else {
                0
            },
        ) + "..."@
    }
}

/// Shortens a name to fit `max_chars` characters.
pub fn elide_text(text: &str, max_chars: usize) -> (r: String)
    ensures
        r@ == elided(text@, max_chars as nat),
{
    let cs = chars_of(text);
    if cs.len() <= max_chars {
        return string_of(text);
    }
    let head = if max_chars >= 3 {
        max_chars - 3
    } else {
        0
    };
    let mut out = String::new();
    let mut i: usize = 0;
    while i < head
        invariant
            cs@ == text@,
            head < cs.len(),
            i <= head,
            out@ == text@.take(i as int),
        decreases head - i,
    {
        push_char(&mut out, cs[i]);
        assert(text@.take(i as int).push(text@[i as int]) =~= text@.take(i + 1));
        i += 1;
    }
    push_str(&mut out, "...");
    out
}

/// The penalty cell: drive-throughs first, then the seconds of time penalties (a
/// stop-go counts ten), then, when asked for, the track-limit warnings.
pub open spec fn penalties_text(row: TimingTowerEntry, show_tl_warns: bool) -> Seq<char> {
    let seconds: nat = row.time_penalties_sec as nat + row.num_sg as nat * 10;
    if row.num_dt > 0 {
        decimal(row.num_dt as nat) + "DT"@
    } else if seconds > 0 {
        "+"@ + decimal(seconds) + "sec"@
    } else if show_tl_warns {
        "TL: "@ + decimal(row.corner_cutting_warnings as nat)
    } else {
        Seq::empty()
    }
}

/// Formats the penalty cell of a row.
pub fn format_penalties(row: &TimingTowerEntry, show_tl_warns: bool) -> (r: String)
    requires
        row.num_dt == 0 ==> row.time_penalties_sec + row.num_sg * 10 <= u32::MAX,
    ensures
        r@ == penalties_text(*row, show_tl_warns),
{
    if row.num_dt > 0 {
        let mut out = String::new();
        push_decimal(&mut out, row.num_dt as u64);
        push_str(&mut out, "DT");
        assert(out@ =~= penalties_text(*row, show_tl_warns));
        return out;
    }
    let penalty_seconds: u32 = row.time_penalties_sec + (row.num_sg as u32) * 10;
    if penalty_seconds > 0 {
        let mut out = string_of("+");
        push_decimal(&mut out, penalty_seconds as u64);
        push_str(&mut out, "sec");
        assert(out@ =~= penalties_text(*row, show_tl_warns));
        return out;
    }
    if show_tl_warns {
        let mut out = string_of("TL: ");
        push_decimal(&mut out, row.corner_cutting_warnings as u64);
        return out;
    }
    String::new()
}

/// What the delta cell of a row shows: a word, or a gap in milliseconds to be shown as
/// signed seconds.
#[derive(Debug, PartialEq)]
pub enum DeltaCell {
    Text(String),
    Millis(i32),
}

/// The delta cell: "PIT" in the pits; "DNF" or "DSQ" when retired or disqualified;
/// "---" for the reference driver, an unknown gap or no gap; the gap otherwise.
pub open spec fn delta_cell_spec(d: DeltaCell, row: TimingTowerEntry, ref_driver_index: usize) -> bool {
    if row.is_pitting {
        d matches DeltaCell::Text(t) && t@ == "PIT"@
    } else if row.dnf_status matches Some(s) && (s@ == "DNF"@ || s@ == "DSQ"@) {
        d matches DeltaCell::Text(t) && row.dnf_status matches Some(s) && t@ == s@
    } else {
        match row.relative_delta_ms {
            None => d matches DeltaCell::Text(t) && t@ == "---"@,
            Some(ms) => if row.index == ref_driver_index || ms == 0 {
                d matches DeltaCell::Text(t) && t@ == "---"@
            } else {
                d == DeltaCell::Millis(ms)
            },
        }
    }
}

/// Decides the delta cell of a row.
pub fn delta_cell(row: &TimingTowerEntry, ref_driver_index: usize) -> (r: DeltaCell)
    ensures
        delta_cell_spec(r, *row, ref_driver_index),
{
    if row.is_pitting {
        return DeltaCell::Text(string_of("PIT"));
    }
    match &row.dnf_status {
        Some(status) => {
            if str_eq(status.as_str(), "DNF") || str_eq(status.as_str(), "DSQ") {
                return DeltaCell::Text(status.clone());
            }
        },
        None => {},
    }
    match row.relative_delta_ms {
        None => DeltaCell::Text(string_of("---")),
        Some(ms) => if row.index == ref_driver_index || ms == 0 {
            DeltaCell::Text(string_of("---"))
        } else {
            DeltaCell::Millis(ms)
        },
    }
}

/// The delta cell of a row that is not in the pits and has retired ("DNF") or been
/// disqualified ("DSQ") shows that word, never a gap; a gap shows only for a row that
/// is on track, not retired or disqualified, is not the reference driver and has a
/// non-zero known gap, and it is that gap.
pub proof fn law_retired_rows_show_status(d: DeltaCell, row: TimingTowerEntry, ref_driver_index: usize)
    requires
        delta_cell_spec(d, row, ref_driver_index),
    ensures
        row.is_pitting ==> (d matches DeltaCell::Text(t) && t@ == "PIT"@),
        !row.is_pitting ==> match row.dnf_status {
            Some(s) => (s@ == "DNF"@ || s@ == "DSQ"@) ==> (d matches DeltaCell::Text(t) && t@ == s@),
            None => true,
        },
        d matches DeltaCell::Millis(ms) ==> {
            &&& !row.is_pitting
            &&& !(row.dnf_status matches Some(s) && (s@ == "DNF"@ || s@ == "DSQ"@))
            &&& row.index != ref_driver_index
            &&& ms != 0
            &&& row.relative_delta_ms == Some(ms)
        },
{
}

} // verus!
