use vstd::prelude::*;
use vstd::string::StrSliceExecFns;

use crate::display_info::{
    all_well_formed, at_most_one_primary, di_eq, di_seq_eq, retain_first_primary,
    spec_first_primary_at, spec_retained, well_formed, Backend, DisplayInfo, ScreenRawHandle,
};
use crate::error::DIResult;
use crate::names::{spec_unknown_display_name, unknown_display_name};
use crate::resolver::{
    get_from_point_in, spec_contains_point, spec_no_containing, spec_resolves_point,
};
use crate::normalize::{
    compute_scale_milli, normalize_coord, normalize_len, rotation_from_randr, spec_clamp_u32,
    spec_compute_scale_milli, spec_normalize_coord, spec_normalize_len, spec_rotation_from_randr,
};

verus! {

/// One RandR mode, as reported by the screen resources query.
#[derive(Debug, Clone, Copy, PartialEq, Eq, Structural)]
pub struct XorgModeInfo {
    /// The mode's XID.
    pub id: u32,
    /// Pixel clock in Hz.
    pub dot_clock: u32,
    /// Total horizontal pixels per line, blanking included.
    pub htotal: u16,
    /// Total lines per frame, blanking included.
    pub vtotal: u16,
    /// Whether the mode sets the double-scan flag.
    pub double_scan: bool,
    /// Whether the mode sets the interlace flag.
    pub interlace: bool,
}

/// The refresh rate of a mode in millihertz: the dot clock divided by the
/// total pixels per frame, with the line count doubled for double-scan modes
/// and halved for interlaced ones; 0 when a total is 0.
pub open spec fn spec_mode_millihertz(m: XorgModeInfo) -> u32 {
    let v0: int = if m.double_scan {
        2 * m.vtotal
    } else {
        m.vtotal as int
    };
    let v: int = if m.interlace {
        v0 / 2
    } else {
        v0
    };
    if v != 0 && m.htotal != 0 {
        spec_clamp_u32(m.dot_clock * 1000 / (v * m.htotal))
    } else {
        0
    }
}

pub fn mode_millihertz(m: &XorgModeInfo) -> (r: u32)
    ensures
        r == spec_mode_millihertz(*m),
{
    let mut v: u64 = m.vtotal as u64;
    if m.double_scan {
        v = v * 2;
    }
    if m.interlace {
        v = v / 2;
    }
    if v != 0 && m.htotal != 0 {
        proof {
            assert(0 < v * (m.htotal as u64) <= 131070u64 * 65535u64) by (nonlinear_arith)
                requires
                    0 < v <= 131070u64,
                    0 < m.htotal as u64 <= 65535u64,
            ;
        }
        let q: u64 = m.dot_clock as u64 * 1000 / (v * m.htotal as u64);
        if q > u32::MAX as u64 {
            u32::MAX
        } else {
            q as u32
        }
    } else {
        0
    }
}

/// The first mode carrying the given XID.
pub open spec fn spec_find_mode(modes: Seq<XorgModeInfo>, id: u32) -> Option<XorgModeInfo>
    decreases modes.len(),
{
    if modes.len() == 0 {
        None
    } else if modes[0].id == id {
        Some(modes[0])
    } else {
        spec_find_mode(modes.skip(1), id)
    }
}

/// The refresh rate of the mode a CRTC currently drives: that of the first
/// mode with the CRTC's mode XID, or 0 when the XID matches no mode.
pub open spec fn spec_current_millihertz(modes: Seq<XorgModeInfo>, mode_id: u32) -> u32 {
    match spec_find_mode(modes, mode_id) {
        Some(m) => spec_mode_millihertz(m),
        None => 0,
    }
}

proof fn lemma_find_mode_step(modes: Seq<XorgModeInfo>, id: u32, i: int)
    requires
        0 <= i <= modes.len(),
        forall|j: int| 0 <= j < i ==> (#[trigger] modes[j]).id != id,
    ensures
        spec_find_mode(modes, id) == spec_find_mode(modes.skip(i), id),
    decreases i,
{
    if i > 0 {
        assert forall|j: int| 0 <= j < i - 1 implies (#[trigger] modes.skip(1)[j]).id != id by {
            assert(modes[j + 1].id != id);
        }
        lemma_find_mode_step(modes.skip(1), id, i - 1);
        assert(modes.skip(1).skip(i - 1) =~= modes.skip(i));
    } else {
        assert(modes.skip(0) =~= modes);
    }
}

pub fn current_millihertz(modes: &Vec<XorgModeInfo>, mode_id: u32) -> (r: u32)
    ensures
        r == spec_current_millihertz(modes@, mode_id),
{
    let n = modes.len();
    let mut i: usize = 0;
    while i < n
        invariant
            n == modes@.len(),
            i <= n,
            forall|j: int| 0 <= j < i ==> (#[trigger] modes@[j]).id != mode_id,
        decreases n - i,
    {
        if modes[i].id == mode_id {
            proof {
                lemma_find_mode_step(modes@, mode_id, i as int);
                assert(modes@.skip(i as int)[0] == modes@[i as int]);
            }
            return mode_millihertz(&modes[i]);
        }
        i = i + 1;
    }
    proof {
        lemma_find_mode_step(modes@, mode_id, n as int);
        assert(modes@.skip(n as int).len() == 0);
    }
    0
}

/// The index of the first occurrence of `c`, or the length when `c` does
/// not occur.
pub open spec fn spec_char_pos(s: Seq<char>, c: char) -> nat
    decreases s.len(),
{
    if s.len() == 0 {
        0
    } else if s[0] == c {
        0
    } else {
        1 + spec_char_pos(s.skip(1), c)
    }
}

proof fn lemma_char_pos_is_first(s: Seq<char>, c: char)
    ensures
        spec_char_pos(s, c) <= s.len(),
        forall|j: int| 0 <= j < spec_char_pos(s, c) ==> s[j] != c,
        spec_char_pos(s, c) < s.len() ==> s[spec_char_pos(s, c) as int] == c,
    decreases s.len(),
{
    if s.len() > 0 && s[0] != c {
        lemma_char_pos_is_first(s.skip(1), c);
        let p = spec_char_pos(s, c);
        assert forall|j: int| 0 <= j < p implies s[j] != c by {
            if j > 0 {
                assert(s.skip(1)[j - 1] != c);
            }
        }
        if p < s.len() {
            assert(s.skip(1)[p - 1] == c);
        }
    }
}

fn char_pos(s: &str, c: char) -> (r: usize)
    ensures
        r == spec_char_pos(s@, c),
        r <= s@.len(),
{
    proof {
        lemma_char_pos_is_first(s@, c);
    }
    let n = s.unicode_len();
    let mut i: usize = 0;
    while i < n
        invariant
            n == s@.len(),
            i <= n,
            forall|j: int| 0 <= j < i ==> s@[j] != c,
            spec_char_pos(s@, c) >= i,
            spec_char_pos(s@, c) <= s@.len(),
            spec_char_pos(s@, c) < s@.len() ==> s@[spec_char_pos(s@, c) as int] == c,
            forall|j: int| 0 <= j < spec_char_pos(s@, c) ==> s@[j] != c,
        decreases n - i,
    {
        if s.get_char(i) == c {
            return i;
        }
        i = i + 1;
    }
    i
}

pub open spec fn spec_is_digit(c: char) -> bool {
    48 <= c as u32 <= 57
}

pub open spec fn spec_digit_val(c: char) -> int {
    c as u32 - 48
}

pub open spec fn spec_all_digits(s: Seq<char>) -> bool {
    forall|i: int| 0 <= i < s.len() ==> spec_is_digit(#[trigger] s[i])
}

/// The value of a string of decimal digits, most significant first.
pub open spec fn spec_digits_val(s: Seq<char>) -> int
    decreases s.len(),
{
    if s.len() == 0 {
        0
    } else {
        spec_digits_val(s.drop_last()) * 10 + spec_digit_val(s.last())
    }
}

proof fn lemma_digits_val_nonneg(s: Seq<char>)
    requires
        spec_all_digits(s),
    ensures
        spec_digits_val(s) >= 0,
    decreases s.len(),
{
    if s.len() > 0 {
        assert(spec_all_digits(s.drop_last()));
        lemma_digits_val_nonneg(s.drop_last());
    }
}

/// Appending digits never shrinks the value.
proof fn lemma_digits_val_prefix_le(s: Seq<char>, i: int)
    requires
        spec_all_digits(s),
        0 <= i <= s.len(),
    ensures
        spec_digits_val(s.take(i)) <= spec_digits_val(s),
    decreases s.len(),
{
    if i == s.len() {
        assert(s.take(i) =~= s);
    } else {
        assert(spec_all_digits(s.drop_last()));
        assert(s.take(i) =~= s.drop_last().take(i));
        lemma_digits_val_prefix_le(s.drop_last(), i);
        lemma_digits_val_nonneg(s.drop_last());
    }
}

fn all_digits(s: &str) -> (r: bool)
    ensures
        r == spec_all_digits(s@),
{
    let n = s.unicode_len();
    let mut i: usize = 0;
    while i < n
        invariant
            n == s@.len(),
            i <= n,
            forall|j: int| 0 <= j < i ==> spec_is_digit(#[trigger] s@[j]),
        decreases n - i,
    {
        let c = s.get_char(i);
        let v = c as u32;
        if v < 48 || v > 57 {
            return false;
        }
        i = i + 1;
    }
    true
}

/// The cap beyond which a DPI figure is rejected as nonsense; it keeps the
/// milli-DPI within `u32`.
pub const MAX_DPI: u64 = 4000000;

/// The value of the digits, or `None` beyond the cap.
fn digits_val_bounded(s: &str) -> (r: Option<u64>)
    requires
        spec_all_digits(s@),
    ensures
        match r {
            Some(v) => v == spec_digits_val(s@) && v <= MAX_DPI,
            None => spec_digits_val(s@) > MAX_DPI,
        },
{
    let n = s.unicode_len();
    let mut acc: u64 = 0;
    let mut i: usize = 0;
    proof {
        assert(s@.take(0) =~= Seq::<char>::empty());
    }
    while i < n
        invariant
            n == s@.len(),
            i <= n,
            spec_all_digits(s@),
            acc == spec_digits_val(s@.take(i as int)),
            acc <= MAX_DPI,
        decreases n - i,
    {
        let c = s.get_char(i);
        let d: u64 = (c as u32 - 48) as u64;
        let acc2: u64 = acc * 10 + d;
        proof {
            let t1 = s@.take(i + 1 as int);
            assert(t1.drop_last() =~= s@.take(i as int));
            assert(t1.last() == s@[i as int]);
        }
        if acc2 > MAX_DPI {
            proof {
                lemma_digits_val_prefix_le(s@, i + 1 as int);
            }
            return None;
        }
        acc = acc2;
        i = i + 1;
    }
    proof {
        assert(s@.take(n as int) =~= s@);
    }
    Some(acc)
}

/// The `k`-th fractional digit's value; 0 past the end.
pub open spec fn spec_fdigit(s: Seq<char>, k: int) -> int {
    if k < s.len() {
        spec_digit_val(s[k])
    } else {
        0
    }
}

/// The first three fractional digits, read as thousandths (further digits
/// are truncated away, as the conversion to thousandths must).
pub open spec fn spec_frac_milli(s: Seq<char>) -> int {
    spec_fdigit(s, 0) * 100 + spec_fdigit(s, 1) * 10 + spec_fdigit(s, 2)
}

fn frac_milli(s: &str) -> (r: u64)
    requires
        spec_all_digits(s@),
    ensures
        r == spec_frac_milli(s@),
        r <= 999,
{
    let n = s.unicode_len();
    let d0: u64 = if n > 0 {
        (s.get_char(0) as u32 - 48) as u64
    } else {
        0
    };
    let d1: u64 = if n > 1 {
        (s.get_char(1) as u32 - 48) as u64
    } else {
        0
    };
    let d2: u64 = if n > 2 {
        (s.get_char(2) as u32 - 48) as u64
    } else {
        0
    };
    d0 * 100 + d1 * 10 + d2
}

/// A DPI figure in thousandths, parsed from decimal digits with an optional
/// fractional part (`144`, `96.5`); anything else, and any figure beyond the
/// cap, is rejected.
pub open spec fn spec_parse_dpi_milli(t: Seq<char>) -> Option<u32> {
    let dot = spec_char_pos(t, '.');
    let ip = t.take(dot as int);
    let fp = if dot == t.len() {
        Seq::<char>::empty()
    } else {
        t.skip(dot + 1 as int)
    };
    if ip.len() == 0 || !spec_all_digits(ip) || !spec_all_digits(fp) {
        None
    } else if spec_digits_val(ip) > MAX_DPI {
        None
    } else {
        Some((spec_digits_val(ip) * 1000 + spec_frac_milli(fp)) as u32)
    }
}

pub fn parse_dpi_milli(t: &str) -> (r: Option<u32>)
    ensures
        r == spec_parse_dpi_milli(t@),
{
    let n = t.unicode_len();
    let dot = char_pos(t, '.');
    let ip = t.substring_char(0, dot);
    proof {
        assert(ip@ =~= t@.take(dot as int));
    }
    let fp = if dot == n {
        t.substring_char(n, n)
    } else {
        t.substring_char(dot + 1, n)
    };
    proof {
        if dot == n {
            assert(fp@ =~= Seq::<char>::empty());
        } else {
            assert(fp@ =~= t@.skip(dot + 1 as int));
        }
    }
    if ip.unicode_len() == 0 {
        return None;
    }
    if !all_digits(ip) {
        return None;
    }
    if !all_digits(fp) {
        return None;
    }
    let ipv = match digits_val_bounded(ip) {
        Some(v) => v,
        None => {
            return None;
        },
    };
    let fr = frac_milli(fp);
    proof {
        lemma_digits_val_nonneg(ip@);
    }
    Some((ipv * 1000 + fr) as u32)
}

fn starts_with_xft(s: &str) -> (r: bool)
    ensures
        r == (s@.len() >= 9 && s@.take(9) == "Xft.dpi:\t"@),
{
    proof {
        reveal_strlit("Xft.dpi:\t");
    }
    let n = s.unicode_len();
    if n < 9 {
        return false;
    }
    let r = s.get_char(0) == 'X' && s.get_char(1) == 'f' && s.get_char(2) == 't' && s.get_char(3)
        == '.' && s.get_char(4) == 'd' && s.get_char(5) == 'p' && s.get_char(6) == 'i'
        && s.get_char(7) == ':' && s.get_char(8) == '\t';
    proof {
        assert(forall|j: int| 0 <= j < 9 ==> #[trigger] s@.take(9)[j] == s@[j]);
        if r {
            assert(s@.take(9) =~= "Xft.dpi:\t"@);
        } else if s@.take(9) == "Xft.dpi:\t"@ {
            assert(s@.take(9)[0] == "Xft.dpi:\t"@[0]);
            assert(s@.take(9)[1] == "Xft.dpi:\t"@[1]);
            assert(s@.take(9)[2] == "Xft.dpi:\t"@[2]);
            assert(s@.take(9)[3] == "Xft.dpi:\t"@[3]);
            assert(s@.take(9)[4] == "Xft.dpi:\t"@[4]);
            assert(s@.take(9)[5] == "Xft.dpi:\t"@[5]);
            assert(s@.take(9)[6] == "Xft.dpi:\t"@[6]);
            assert(s@.take(9)[7] == "Xft.dpi:\t"@[7]);
            assert(s@.take(9)[8] == "Xft.dpi:\t"@[8]);
            assert(false);
        }
    }
    r
}

/// The prefix holds no newline, so a string that starts with it has its
/// first line reaching past the prefix.
proof fn lemma_prefix_line_len(s: Seq<char>)
    requires
        s.len() >= 9,
        s.take(9) == "Xft.dpi:\t"@,
    ensures
        spec_char_pos(s, '\n') >= 9,
{
    reveal_strlit("Xft.dpi:\t");
    lemma_char_pos_is_first(s, '\n');
    let p = spec_char_pos(s, '\n');
    if p < 9 {
        assert(s.take(9)[p as int] == s[p as int]);
    }
}

/// The text after the first `Xft.dpi:<tab>` at a line start, up to the end
/// of that line; `None` when no line starts with the prefix.
pub open spec fn spec_find_dpi_line(s: Seq<char>) -> Option<Seq<char>>
    decreases s.len(),
{
    let e = spec_char_pos(s, '\n');
    if s.len() >= 9 && s.take(9) == "Xft.dpi:\t"@ {
        Some(s.subrange(9, e as int))
    } else if e >= s.len() {
        None
    } else {
        spec_find_dpi_line(s.skip(e + 1 as int))
    }
}

pub fn find_dpi_line<'a>(s: &'a str) -> (r: Option<&'a str>)
    ensures
        match r {
            Some(t) => spec_find_dpi_line(s@) == Some(t@),
            None => spec_find_dpi_line(s@) is None,
        },
    decreases s@.len(),
{
    let n = s.unicode_len();
    let e = char_pos(s, '\n');
    if starts_with_xft(s) {
        proof {
            lemma_prefix_line_len(s@);
        }
        Some(s.substring_char(9, e))
    } else if e >= n {
        None
    } else {
        let rest = s.substring_char(e + 1, n);
        proof {
            assert(rest@ =~= s@.skip(e + 1 as int));
        }
        find_dpi_line(rest)
    }
}

/// The DPI in thousandths that the X resource manager property reports in
/// its `Xft.dpi` entry; `None` when the property has no such entry or the
/// figure does not parse.
pub open spec fn spec_xft_dpi_milli(s: Seq<char>) -> Option<u32> {
    match spec_find_dpi_line(s) {
        Some(t) => spec_parse_dpi_milli(t),
        None => None,
    }
}

pub fn xft_dpi_milli(s: &str) -> (r: Option<u32>)
    ensures
        r == spec_xft_dpi_milli(s@),
{
    match find_dpi_line(s) {
        Some(t) => parse_dpi_milli(t),
        None => None,
    }
}

/// The scale factor of an X screen: the `Xft.dpi` entry of the resource
/// manager property against the 96-DPI baseline, or 1.0 when the property
/// is missing or unusable.
pub open spec fn spec_xorg_scale_milli(rm: Option<String>) -> u32 {
    let dpi = match rm {
        Some(s) => spec_xft_dpi_milli(s@),
        None => None,
    };
    spec_compute_scale_milli(dpi, None, 0, None)
}

pub fn xorg_scale_milli(rm: &Option<String>) -> (r: u32)
    ensures
        r == spec_xorg_scale_milli(*rm),
        r > 0,
{
    let dpi = match rm {
        Some(s) => xft_dpi_milli(s.as_str()),
        None => None,
    };
    compute_scale_milli(dpi, None, 0, None)
}

/// One RandR monitor, as the monitors query reports it.
pub struct XorgMonitor {
    /// The monitor's name atom, decoded; `None` when the name query failed.
    pub name: Option<String>,
    /// Whether the X server flags this monitor primary.
    pub primary: bool,
    /// Position of the monitor in raw screen pixels.
    pub x: i16,
    pub y: i16,
    /// Size of the monitor in raw screen pixels.
    pub width: u16,
    pub height: u16,
    /// Physical size in millimeters.
    pub width_mm: u32,
    pub height_mm: u32,
    /// The outputs driving this monitor; the first one identifies it.
    pub outputs: Vec<u32>,
    /// Rotation bits of the driving CRTC; `None` when the query failed.
    pub crtc_rotation: Option<u16>,
    /// XID of the CRTC's active mode; `None` when the query failed.
    pub mode_id: Option<u32>,
}

/// Everything one enumeration reads from the X server, queried once and
/// handed over as plain values.
pub struct XorgScreenSnapshot {
    /// The root window's resource manager property, decoded; `None` when
    /// missing or undecodable.
    pub resource_manager: Option<String>,
    /// The active monitors, in server order.
    pub monitors: Vec<XorgMonitor>,
    /// The screen's mode list.
    pub modes: Vec<XorgModeInfo>,
}

/// What the descriptor of one X monitor holds. Coordinates are divided by
/// the screen's scale factor; a failed rotation or mode query degrades to
/// 0; a missing name degrades to an empty name and a synthesized label.
pub open spec fn spec_is_xorg_descriptor(
    d: DisplayInfo,
    m: XorgMonitor,
    modes: Seq<XorgModeInfo>,
    scale: u32,
    primary: bool,
) -> bool {
    &&& m.outputs@.len() > 0
    &&& d.id == m.outputs@[0]
    &&& match m.name {
        Some(n) => d.name@ == n@ && d.friendly_name@ == n@,
        None => d.name@ == Seq::<char>::empty() && d.friendly_name@ == spec_unknown_display_name(
            m.outputs@[0],
        ),
    }
    &&& d.raw_handle == (ScreenRawHandle { backend: Backend::Xorg, value: m.outputs@[0] as u64 })
    &&& d.x == spec_normalize_coord(m.x as i32, scale)
    &&& d.y == spec_normalize_coord(m.y as i32, scale)
    &&& d.width == spec_normalize_len(m.width as u32, scale)
    &&& d.height == spec_normalize_len(m.height as u32, scale)
    &&& d.width_mm == m.width_mm as i32
    &&& d.height_mm == m.height_mm as i32
    &&& d.rotation == match m.crtc_rotation {
        Some(bits) => spec_rotation_from_randr(bits),
        None => 0,
    }
    &&& d.scale_factor_milli == scale
    &&& d.frequency_millihertz == match m.mode_id {
        Some(mid) => spec_current_millihertz(modes, mid),
        None => 0,
    }
    &&& d.is_primary == primary
}

fn build_monitor(m: &XorgMonitor, modes: &Vec<XorgModeInfo>, scale: u32) -> (r: DisplayInfo)
    requires
        m.outputs@.len() > 0,
        scale > 0,
    ensures
        spec_is_xorg_descriptor(r, *m, modes@, scale, m.primary),
        well_formed(r),
{
    let id = m.outputs[0];
    let (name, friendly) = match &m.name {
        Some(n) => (n.clone(), n.clone()),
        None => (String::new(), unknown_display_name(id)),
    };
    let rotation = match m.crtc_rotation {
        Some(bits) => rotation_from_randr(bits),
        None => 0,
    };
    let freq = match m.mode_id {
        Some(mid) => current_millihertz(modes, mid),
        None => 0,
    };
    DisplayInfo {
        id,
        name,
        friendly_name: friendly,
        raw_handle: ScreenRawHandle { backend: Backend::Xorg, value: id as u64 },
        x: normalize_coord(m.x as i32, scale),
        y: normalize_coord(m.y as i32, scale),
        width: normalize_len(m.width as u32, scale),
        height: normalize_len(m.height as u32, scale),
        width_mm: #[verifier::truncate] (m.width_mm as i32),
        height_mm: #[verifier::truncate] (m.height_mm as i32),
        rotation,
        scale_factor_milli: scale,
        frequency_millihertz: freq,
        is_primary: m.primary,
    }
}

/// The monitors that yield a descriptor: those with at least one output.
/// A monitor without outputs lacks its identity and is skipped; the rest of
/// the enumeration is unaffected.
pub open spec fn spec_kept(ms: Seq<XorgMonitor>) -> Seq<XorgMonitor>
    decreases ms.len(),
{
    if ms.len() == 0 {
        Seq::empty()
    } else {
        let init = spec_kept(ms.drop_last());
        if ms.last().outputs@.len() == 0 {
            init
        } else {
            init.push(ms.last())
        }
    }
}

/// Whether the kept monitor at `i` is the first one the X server flags
/// primary.
pub open spec fn spec_xorg_primary_at(ks: Seq<XorgMonitor>, i: int) -> bool {
    &&& ks[i].primary
    &&& forall|j: int| 0 <= j < i ==> !(#[trigger] ks[j]).primary
}

/// What an X enumeration returns: one descriptor per kept monitor, in
/// server order, and only the first primary flag kept.
pub open spec fn spec_is_xorg_enumeration(
    ds: Seq<DisplayInfo>,
    ms: Seq<XorgMonitor>,
    modes: Seq<XorgModeInfo>,
    rm: Option<String>,
) -> bool {
    let ks = spec_kept(ms);
    let scale = spec_xorg_scale_milli(rm);
    &&& ds.len() == ks.len()
    &&& forall|i: int|
        0 <= i < ds.len() ==> spec_is_xorg_descriptor(
            #[trigger] ds[i],
            ks[i],
            modes,
            scale,
            spec_xorg_primary_at(ks, i),
        )
}

/// All active displays of the captured X screen, normalized.
pub fn get_all(snap: &XorgScreenSnapshot) -> (r: DIResult<Vec<DisplayInfo>>)
    ensures
        r matches Ok(v) && spec_is_xorg_enumeration(
            v@,
            snap.monitors@,
            snap.modes@,
            snap.resource_manager,
        ),
        r matches Ok(v) ==> all_well_formed(v@) && at_most_one_primary(v@),
{
    let scale = xorg_scale_milli(&snap.resource_manager);
    let n = snap.monitors.len();
    let mut built: Vec<DisplayInfo> = Vec::new();
    let mut i: usize = 0;
    proof {
        assert(snap.monitors@.take(0) =~= Seq::<XorgMonitor>::empty());
    }
    while i < n
        invariant
            n == snap.monitors@.len(),
            i <= n,
            scale == spec_xorg_scale_milli(snap.resource_manager),
            scale > 0,
            built@.len() == spec_kept(snap.monitors@.take(i as int)).len(),
            forall|k: int|
                0 <= k < built@.len() ==> spec_is_xorg_descriptor(
                    #[trigger] built@[k],
                    spec_kept(snap.monitors@.take(i as int))[k],
                    snap.modes@,
                    scale,
                    spec_kept(snap.monitors@.take(i as int))[k].primary,
                ) && well_formed(built@[k]),
        decreases n - i,
    {
        proof {
            assert(snap.monitors@.take(i + 1 as int).drop_last() =~= snap.monitors@.take(i as int));
            assert(snap.monitors@.take(i + 1 as int).last() == snap.monitors@[i as int]);
        }
        let m = &snap.monitors[i];
        if m.outputs.len() > 0 {
            let d = build_monitor(m, &snap.modes, scale);
            built.push(d);
        }
        i = i + 1;
    }
    proof {
        assert(snap.monitors@.take(n as int) =~= snap.monitors@);
    }
    let out = retain_first_primary(&built);
    proof {
        let ks = spec_kept(snap.monitors@);
        assert(built@.len() == ks.len());
        assert forall|j: int| 0 <= j < built@.len() implies (#[trigger] built@[j]).is_primary
            == ks[j].primary by {
            assert(spec_is_xorg_descriptor(built@[j], ks[j], snap.modes@, scale, ks[j].primary));
        }
        assert forall|k: int| 0 <= k < out@.len() implies spec_is_xorg_descriptor(
            #[trigger] out@[k],
            ks[k],
            snap.modes@,
            scale,
            spec_xorg_primary_at(ks, k),
        ) && well_formed(out@[k]) by {
            assert(di_eq(out@[k], spec_retained(built@, k)));
            assert(spec_is_xorg_descriptor(built@[k], ks[k], snap.modes@, scale, ks[k].primary));
            if spec_first_primary_at(built@, k) {
                assert forall|j: int| 0 <= j < k implies !(#[trigger] ks[j]).primary by {
                    assert(!built@[j].is_primary);
                }
                assert(spec_xorg_primary_at(ks, k));
            }
            if spec_xorg_primary_at(ks, k) {
                assert forall|j: int| 0 <= j < k implies !(#[trigger] built@[j]).is_primary by {
                    assert(!ks[j].primary);
                }
                assert(spec_first_primary_at(built@, k));
            }
        }
    }
    Ok(out)
}

/// The display of the captured X screen under the given point: the first
/// descriptor whose half-open logical bounds contain it.
pub fn get_from_point(snap: &XorgScreenSnapshot, x: i32, y: i32) -> (r: DIResult<DisplayInfo>)
    ensures
        match r {
            Ok(d) => spec_contains_point(d, x, y) && exists|ds: Seq<DisplayInfo>|
                #[trigger] spec_is_xorg_enumeration(
                    ds,
                    snap.monitors@,
                    snap.modes@,
                    snap.resource_manager,
                ) && spec_resolves_point(ds, x, y, d),
            Err(e) => e is NotFound && exists|ds: Seq<DisplayInfo>|
                #[trigger] spec_is_xorg_enumeration(
                    ds,
                    snap.monitors@,
                    snap.modes@,
                    snap.resource_manager,
                ) && spec_no_containing(ds, x, y),
        },
{
    let displays = match get_all(snap) {
        Ok(v) => v,
        Err(e) => {
            return Err(e);
        },
    };
    let r = get_from_point_in(&displays, x, y);
    match r {
        Ok(d) => {
            proof {
                let i = choose|i: int|
                    0 <= i < displays@.len() && di_eq(d, #[trigger] displays@[i])
                        && spec_contains_point(displays@[i], x, y);
                assert(spec_contains_point(d, x, y));
            }
            Ok(d)
        },
        Err(e) => Err(e),
    }
}

/// Two enumerations of one captured X screen agree on every field of every
/// descriptor.
pub proof fn lemma_xorg_enumeration_deterministic(
    a: Seq<DisplayInfo>,
    b: Seq<DisplayInfo>,
    ms: Seq<XorgMonitor>,
    modes: Seq<XorgModeInfo>,
    rm: Option<String>,
)
    requires
        spec_is_xorg_enumeration(a, ms, modes, rm),
        spec_is_xorg_enumeration(b, ms, modes, rm),
    ensures
        di_seq_eq(a, b),
{
    assert forall|i: int| 0 <= i < a.len() implies di_eq(#[trigger] a[i], b[i]) by {
        assert(spec_is_xorg_descriptor(
            a[i],
            spec_kept(ms)[i],
            modes,
            spec_xorg_scale_milli(rm),
            spec_xorg_primary_at(spec_kept(ms), i),
        ));
        assert(spec_is_xorg_descriptor(
            b[i],
            spec_kept(ms)[i],
            modes,
            spec_xorg_scale_milli(rm),
            spec_xorg_primary_at(spec_kept(ms), i),
        ));
    }
}

} // verus!
