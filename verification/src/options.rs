//! The overlays' command-line options and the backend endpoints they read from.

use vstd::prelude::*;
use crate::text::{
    ascii_lowercase, chars_of, parse_unsigned, parse_unsigned_decimal, push_char, push_str,
    str_eq, string_of, to_ascii_lowercase, trim, trimmed,
};

verus! {

/// The overlay whose options are read.
#[derive(Debug, Clone, Copy, PartialEq, Eq, Structural)]
pub enum OverlayKind {
    LapTimer,
    TimingTower,
    TrackRadar,
    InputTelemetry,
}

/// The options given on the command line, before defaults are applied. Options that
/// hold a decimal fraction are kept as given, for the caller to read.
#[derive(Debug)]
pub struct OverlayArgs {
    pub sample_mode: bool,
    pub positional_base_url: Option<String>,
    pub title: Option<String>,
    pub render_interval_ms: Option<u64>,
    pub fetch_interval_ms: Option<u64>,
    pub history_length: Option<usize>,
    pub num_adjacent_cars: Option<usize>,
    pub show_team_logos: Option<bool>,
    pub show_tyre_info: Option<bool>,
    pub show_deltas: Option<bool>,
    pub show_ers_drs_info: Option<bool>,
    pub show_pens: Option<bool>,
    pub show_tl_warns: Option<bool>,
    pub range_meters: Option<String>,
    pub idle_opacity: Option<String>,
    pub x: Option<String>,
    pub y: Option<String>,
    pub width: Option<String>,
    pub height: Option<String>,
}

/// The options as plain values.
pub struct ArgsModel {
    pub sample_mode: bool,
    pub positional_base_url: Option<Seq<char>>,
    pub title: Option<Seq<char>>,
    pub render_interval_ms: Option<u64>,
    pub fetch_interval_ms: Option<u64>,
    pub history_length: Option<usize>,
    pub num_adjacent_cars: Option<usize>,
    pub show_team_logos: Option<bool>,
    pub show_tyre_info: Option<bool>,
    pub show_deltas: Option<bool>,
    pub show_ers_drs_info: Option<bool>,
    pub show_pens: Option<bool>,
    pub show_tl_warns: Option<bool>,
    pub range_meters: Option<Seq<char>>,
    pub idle_opacity: Option<Seq<char>>,
    pub x: Option<Seq<char>>,
    pub y: Option<Seq<char>>,
    pub width: Option<Seq<char>>,
    pub height: Option<Seq<char>>,
}

/// An optional string as an optional character sequence.
pub open spec fn text_of(s: Option<String>) -> Option<Seq<char>> {
    match s {
        Some(x) => Some(x@),
        None => None,
    }
}

impl View for OverlayArgs {
    type V = ArgsModel;

    open spec fn view(&self) -> ArgsModel {
        ArgsModel {
            sample_mode: self.sample_mode,
            positional_base_url: text_of(self.positional_base_url),
            title: text_of(self.title),
            render_interval_ms: self.render_interval_ms,
            fetch_interval_ms: self.fetch_interval_ms,
            history_length: self.history_length,
            num_adjacent_cars: self.num_adjacent_cars,
            show_team_logos: self.show_team_logos,
            show_tyre_info: self.show_tyre_info,
            show_deltas: self.show_deltas,
            show_ers_drs_info: self.show_ers_drs_info,
            show_pens: self.show_pens,
            show_tl_warns: self.show_tl_warns,
            range_meters: text_of(self.range_meters),
            idle_opacity: text_of(self.idle_opacity),
            x: text_of(self.x),
            y: text_of(self.y),
            width: text_of(self.width),
            height: text_of(self.height),
        }
    }
}

/// No option given.
pub open spec fn no_args() -> ArgsModel {
    ArgsModel {
        sample_mode: false,
        positional_base_url: None,
        title: None,
        render_interval_ms: None,
        fetch_interval_ms: None,
        history_length: None,
        num_adjacent_cars: None,
        show_team_logos: None,
        show_tyre_info: None,
        show_deltas: None,
        show_ers_drs_info: None,
        show_pens: None,
        show_tl_warns: None,
        range_meters: None,
        idle_opacity: None,
        x: None,
        y: None,
        width: None,
        height: None,
    }
}

/// The boolean an option value spells, ignoring surrounding whitespace and ASCII case.
pub open spec fn bool_word(s: Seq<char>) -> Option<bool> {
    let w = ascii_lowercase(trimmed(s));
    if w == "1"@ || w == "true"@ || w == "yes"@ || w == "on"@ {
        Some(true)
    } else if w == "0"@ || w == "false"@ || w == "no"@ || w == "off"@ {
        Some(false)
    } else {
        None
    }
}

/// Reads a boolean option value ("1", "true", "yes", "on" and their opposites).
pub fn parse_bool_arg(value: &str) -> (r: Option<bool>)
    ensures
        r == bool_word(value@),
{
    let t = trim(value);
    let lower = to_ascii_lowercase(t.as_str());
    let w = lower.as_str();
    if str_eq(w, "1") || str_eq(w, "true") || str_eq(w, "yes") || str_eq(w, "on") {
        Some(true)
    } else if str_eq(w, "0") || str_eq(w, "false") || str_eq(w, "no") || str_eq(w, "off") {
        Some(false)
    } else {
        None
    }
}

/// A parsed number, kept only when positive.
pub open spec fn positive(n: Option<nat>) -> Option<nat> {
    match n {
        Some(x) => if x > 0 {
            Some(x)
        } else {
            None
        },
        None => None,
    }
}

/// Whether `a` names an option that `kind` reads with a value after it.
pub open spec fn value_flag(kind: OverlayKind, a: Seq<char>) -> bool {
    ||| a == "--title"@
    ||| a == "--render-interval-ms"@
    ||| a == "--interval-ms"@
    ||| a == "--fetch-interval-ms"@
    ||| a == "--x"@
    ||| a == "--y"@
    ||| a == "--width"@
    ||| a == "--height"@
    ||| kind == OverlayKind::TimingTower && (a == "--num-adjacent-cars"@ || a == "--show-team-logos"@
        || a == "--show-tyre-info"@ || a == "--show-deltas"@ || a == "--show-ers-drs-info"@ || a
        == "--show-pens"@ || a == "--show-tl-warns"@)
    ||| kind == OverlayKind::TrackRadar && (a == "--range-meters"@ || a == "--idle-opacity"@)
    ||| kind == OverlayKind::InputTelemetry && a == "--history-length"@
}

/// The options after option `a` (one that `kind` reads) with value `v`.
pub open spec fn apply_value(m: ArgsModel, a: Seq<char>, v: Seq<char>) -> ArgsModel {
    if a == "--title"@ {
        ArgsModel { title: Some(v), ..m }
    } else if a == "--render-interval-ms"@ || a == "--interval-ms"@ {
        ArgsModel {
            render_interval_ms: match positive(parse_unsigned(v, u64::MAX as nat)) {
                Some(x) => Some(x as u64),
                None => None,
            },
            ..m
        }
    } else if a == "--fetch-interval-ms"@ {
        ArgsModel {
            fetch_interval_ms: match positive(parse_unsigned(v, u64::MAX as nat)) {
                Some(x) => Some(x as u64),
                None => None,
            },
            ..m
        }
    } else if a == "--history-length"@ {
        ArgsModel {
            history_length: match positive(parse_unsigned(v, usize::MAX as nat)) {
                Some(x) => Some(x as usize),
                None => None,
            },
            ..m
        }
    } else if a == "--num-adjacent-cars"@ {
        ArgsModel {
            num_adjacent_cars: match parse_unsigned(v, usize::MAX as nat) {
                Some(x) => if x <= 22 {
                    Some(x as usize)
                } else {
                    None
                },
                None => None,
            },
            ..m
        }
    } else if a == "--show-team-logos"@ {
        ArgsModel { show_team_logos: bool_word(v), ..m }
    } else if a == "--show-tyre-info"@ {
        ArgsModel { show_tyre_info: bool_word(v), ..m }
    } else if a == "--show-deltas"@ {
        ArgsModel { show_deltas: bool_word(v), ..m }
    } else if a == "--show-ers-drs-info"@ {
        ArgsModel { show_ers_drs_info: bool_word(v), ..m }
    } else if a == "--show-pens"@ {
        ArgsModel { show_pens: bool_word(v), ..m }
    } else if a == "--show-tl-warns"@ {
        ArgsModel { show_tl_warns: bool_word(v), ..m }
    } else if a == "--range-meters"@ {
        ArgsModel { range_meters: Some(v), ..m }
    } else if a == "--idle-opacity"@ {
        ArgsModel { idle_opacity: Some(v), ..m }
    } else if a == "--x"@ {
        ArgsModel { x: Some(v), ..m }
    } else if a == "--y"@ {
        ArgsModel { y: Some(v), ..m }
    } else if a == "--width"@ {
        ArgsModel { width: Some(v), ..m }
    } else {
        ArgsModel { height: Some(v), ..m }
    }
}

/// Whether `a` starts with "--".
pub open spec fn is_option_like(a: Seq<char>) -> bool {
    a.len() >= 2 && a[0] == '-' && a[1] == '-'
}

/// The options read from `args[i..]`, starting from `m`: "--sample" sets sample mode;
/// an option that takes a value reads the next argument (nothing when there is none);
/// other "--" arguments are skipped; the first other argument is the backend URL.
pub open spec fn args_from(kind: OverlayKind, args: Seq<Seq<char>>, i: int, m: ArgsModel) -> ArgsModel
    decreases args.len() - i,
{
    if i < 0 || i >= args.len() {
        m
    } else {
        let a = args[i];
        if a == "--sample"@ {
            args_from(kind, args, i + 1, ArgsModel { sample_mode: true, ..m })
        } else if value_flag(kind, a) {
            if i + 1 < args.len() {
                args_from(kind, args, i + 2, apply_value(m, a, args[i + 1]))
            } else {
                m
            }
        } else if is_option_like(a) {
            args_from(kind, args, i + 1, m)
        } else if m.positional_base_url is None {
            args_from(kind, args, i + 1, ArgsModel { positional_base_url: Some(a), ..m })
        } else {
            args_from(kind, args, i + 1, m)
        }
    }
}

/// The views of a list of strings.
pub open spec fn views(args: Seq<String>) -> Seq<Seq<char>> {
    args.map_values(|s: String| s@)
}

fn is_option_like_exec(a: &str) -> (r: bool)
    ensures
        r == is_option_like(a@),
{
    let cs = chars_of(a);
    cs.len() >= 2 && cs[0] == '-' && cs[1] == '-'
}

fn value_flag_exec(kind: OverlayKind, a: &str) -> (r: bool)
    ensures
        r == value_flag(kind, a@),
{
    str_eq(a, "--title") || str_eq(a, "--render-interval-ms") || str_eq(a, "--interval-ms")
        || str_eq(a, "--fetch-interval-ms") || str_eq(a, "--x") || str_eq(a, "--y") || str_eq(
        a,
        "--width",
    ) || str_eq(a, "--height") || (kind == OverlayKind::TimingTower && (str_eq(
        a,
        "--num-adjacent-cars",
    ) || str_eq(a, "--show-team-logos") || str_eq(a, "--show-tyre-info") || str_eq(
        a,
        "--show-deltas",
    ) || str_eq(a, "--show-ers-drs-info") || str_eq(a, "--show-pens") || str_eq(
        a,
        "--show-tl-warns",
    ))) || (kind == OverlayKind::TrackRadar && (str_eq(a, "--range-meters") || str_eq(
        a,
        "--idle-opacity",
    ))) || (kind == OverlayKind::InputTelemetry && str_eq(a, "--history-length"))
}

fn positive_u64(n: Option<u64>) -> (r: Option<u64>)
    ensures
        r == match n {
            Some(x) => if x > 0 {
                Some(x)
            } else {
                None
            },
            None => None,
        },
{
    match n {
        Some(x) => if x > 0 {
            Some(x)
        } else {
            None
        },
        None => None,
    }
}

fn parse_usize(v: &str) -> (r: Option<usize>)
    ensures
        match r {
            Some(x) => parse_unsigned(v@, usize::MAX as nat) == Some(x as nat),
            None => parse_unsigned(v@, usize::MAX as nat) is None,
        },
{
    match parse_unsigned_decimal(v, usize::MAX as u64) {
        Some(x) => Some(x as usize),
        None => None,
    }
}

fn apply_value_exec(m: &mut OverlayArgs, a: &str, v: &str)
    ensures
        final(m)@ == apply_value(old(m)@, a@, v@),
{
    if str_eq(a, "--title") {
        m.title = Some(string_of(v));
    } else if str_eq(a, "--render-interval-ms") || str_eq(a, "--interval-ms") {
        m.render_interval_ms = positive_u64(parse_unsigned_decimal(v, u64::MAX));
    } else if str_eq(a, "--fetch-interval-ms") {
        m.fetch_interval_ms = positive_u64(parse_unsigned_decimal(v, u64::MAX));
    } else if str_eq(a, "--history-length") {
        m.history_length = match parse_usize(v) {
            Some(x) => if x > 0 {
                Some(x)
            } else {
                None
            },
            None => None,
        };
    } else if str_eq(a, "--num-adjacent-cars") {
        m.num_adjacent_cars = match parse_usize(v) {
            Some(x) => if x <= 22 {
                Some(x)
            } else {
                None
            },
            None => None,
        };
    } else if str_eq(a, "--show-team-logos") {
        m.show_team_logos = parse_bool_arg(v);
    } else if str_eq(a, "--show-tyre-info") {
        m.show_tyre_info = parse_bool_arg(v);
    } else if str_eq(a, "--show-deltas") {
        m.show_deltas = parse_bool_arg(v);
    } else if str_eq(a, "--show-ers-drs-info") {
        m.show_ers_drs_info = parse_bool_arg(v);
    } else if str_eq(a, "--show-pens") {
        m.show_pens = parse_bool_arg(v);
    } else if str_eq(a, "--show-tl-warns") {
        m.show_tl_warns = parse_bool_arg(v);
    } else if str_eq(a, "--range-meters") {
        m.range_meters = Some(string_of(v));
    } else if str_eq(a, "--idle-opacity") {
        m.idle_opacity = Some(string_of(v));
    } else if str_eq(a, "--x") {
        m.x = Some(string_of(v));
    } else if str_eq(a, "--y") {
        m.y = Some(string_of(v));
    } else if str_eq(a, "--width") {
        m.width = Some(string_of(v));
    } else {
        m.height = Some(string_of(v));
    }
}

/// Reads the options of overlay `kind` from its arguments (the program name excluded).
pub fn parse_overlay_args(kind: OverlayKind, args: &Vec<String>) -> (r: OverlayArgs)
    ensures
        r@ == args_from(kind, views(args@), 0, no_args()),
{
    let ghost vs = views(args@);
    let mut m = OverlayArgs {
        sample_mode: false,
        positional_base_url: None,
        title: None,
        render_interval_ms: None,
        fetch_interval_ms: None,
        history_length: None,
        num_adjacent_cars: None,
        show_team_logos: None,
        show_tyre_info: None,
        show_deltas: None,
        show_ers_drs_info: None,
        show_pens: None,
        show_tl_warns: None,
        range_meters: None,
        idle_opacity: None,
        x: None,
        y: None,
        width: None,
        height: None,
    };
    let mut i: usize = 0;
    while i < args.len()
        invariant
            vs == views(args@),
            vs.len() == args@.len(),
            i <= args.len(),
            args_from(kind, vs, 0, no_args()) == args_from(kind, vs, i as int, m@),
        decreases args.len() - i,
    {
        let a = args[i].as_str();
        assert(vs[i as int] == a@);
        if str_eq(a, "--sample") {
            m.sample_mode = true;
            i += 1;
        } else if value_flag_exec(kind, a) {
            if i + 1 < args.len() {
                assert(vs[i + 1] == args@[i + 1]@);
                apply_value_exec(&mut m, a, args[i + 1].as_str());
                i += 2;
            } else {
                i += 1;
                assert(args_from(kind, vs, i as int, m@) == m@);
            }
        } else if is_option_like_exec(a) {
            i += 1;
        } else {
            if m.positional_base_url.is_none() {
                m.positional_base_url = Some(string_of(a));
            }
            i += 1;
        }
    }
    m
}

/// The backend URL: the one given on the command line, else the environment's when it
/// is not blank, else `default`.
pub open spec fn base_url_spec(
    positional: Option<Seq<char>>,
    env_value: Option<Seq<char>>,
    default: Seq<char>,
) -> Seq<char> {
    match positional {
        Some(p) => p,
        None => match env_value {
            Some(e) => if trimmed(e).len() > 0 {
                e
            } else {
                default
            },
            None => default,
        },
    }
}

/// Chooses the backend URL.
pub fn resolve_base_url(positional: Option<String>, env_value: Option<String>, default: &str) -> (r: String)
    ensures
        r@ == base_url_spec(text_of(positional), text_of(env_value), default@),
{
    match positional {
        Some(p) => p,
        None => match env_value {
            Some(e) => {
                let t = trim(e.as_str());
                if t.as_str().is_empty() {
                    string_of(default)
                } else {
                    e
                }
            },
            None => string_of(default),
        },
    }
}

/// The most rows the timing tower shows.
pub const MAX_SUPPORTED_CARS: usize = 22;

/// The number of rows the timing tower shows: the reference and `n` cars on each
/// side, at most 22.
pub fn total_rows(num_adjacent_cars: usize) -> (r: usize)
    requires
        num_adjacent_cars * 2 + 1 <= usize::MAX,
    ensures
        r == if num_adjacent_cars * 2 + 1 <= 22 {
            num_adjacent_cars * 2 + 1
        } else {
            22
        },
{
    let rows = num_adjacent_cars * 2 + 1;
    if rows < MAX_SUPPORTED_CARS {
        rows
    } else {
        MAX_SUPPORTED_CARS
    }
}

/// `s` without its trailing `c` characters.
pub open spec fn strip_end(s: Seq<char>, c: char) -> Seq<char>
    decreases s.len(),
{
    if s.len() > 0 && s.last() == c {
        strip_end(s.drop_last(), c)
    } else {
        s
    }
}

/// `s` without its leading `c` characters.
pub open spec fn strip_start(s: Seq<char>, c: char) -> Seq<char>
    decreases s.len(),
{
    if s.len() > 0 && s[0] == c {
        strip_start(s.drop_first(), c)
    } else {
        s
    }
}

/// The URL of `endpoint` under `base_url`, joined by exactly one '/'.
pub open spec fn endpoint_url_spec(base_url: Seq<char>, endpoint: Seq<char>) -> Seq<char> {
    strip_end(base_url, '/') + "/"@ + strip_start(endpoint, '/')
}

/// Joins a backend URL and an endpoint path with exactly one '/'.
pub fn endpoint_url(base_url: &str, endpoint: &str) -> (r: String)
    ensures
        r@ == endpoint_url_spec(base_url@, endpoint@),
{
    let b = chars_of(base_url);
    let e = chars_of(endpoint);
    let mut end = b.len();
    assert(base_url@.take(end as int) =~= base_url@);
    while end > 0 && b[end - 1] == '/'
        invariant
            b@ == base_url@,
            end <= b.len(),
            strip_end(base_url@, '/') == strip_end(base_url@.take(end as int), '/'),
        decreases end,
    {
        assert(base_url@.take(end as int).drop_last() =~= base_url@.take(end - 1));
        end -= 1;
    }
    let mut start: usize = 0;
    assert(endpoint@.skip(0) =~= endpoint@);
    while start < e.len() && e[start] == '/'
        invariant
            e@ == endpoint@,
            start <= e.len(),
            strip_start(endpoint@, '/') == strip_start(endpoint@.skip(start as int), '/'),
        decreases e.len() - start,
    {
        assert(endpoint@.skip(start as int).drop_first() =~= endpoint@.skip(start + 1));
        start += 1;
    }
    let mut out = String::new();
    let mut i: usize = 0;
    while i < end
        invariant
            b@ == base_url@,
            end <= b.len(),
            i <= end,
            out@ == base_url@.take(i as int),
        decreases end - i,
    {
        push_char(&mut out, b[i]);
        assert(base_url@.take(i as int).push(base_url@[i as int]) =~= base_url@.take(i + 1));
        i += 1;
    }
    push_str(&mut out, "/");
    let ghost mid = out@;
    let mut j: usize = start;
    while j < e.len()
        invariant
            e@ == endpoint@,
            start <= j <= e.len(),
            out@ == mid + endpoint@.subrange(start as int, j as int),
        decreases e.len() - j,
    {
        push_char(&mut out, e[j]);
        assert(endpoint@.subrange(start as int, j as int).push(endpoint@[j as int])
            =~= endpoint@.subrange(start as int, j + 1));
        j += 1;
    }
    proof {
        let t = base_url@.take(end as int);
        assert(!(t.len() > 0 && t.last() == '/'));
        assert(strip_end(t, '/') == t);
        let k = endpoint@.skip(start as int);
        assert(!(k.len() > 0 && k[0] == '/'));
        assert(strip_start(k, '/') == k);
        assert(k =~= endpoint@.subrange(start as int, e.len() as int));
    }
    out
}

} // verus!
