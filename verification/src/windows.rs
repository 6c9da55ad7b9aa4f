use vstd::prelude::*;

use crate::display_info::{
    all_well_formed, at_most_one_primary, di_eq, retain_first_primary, same_geometry,
    spec_first_primary_at, spec_retained, well_formed, Backend, DisplayInfo, ScreenRawHandle,
};
use crate::error::{DIError, DIResult};
use crate::names::{
    decode_device_name, spec_name_units, spec_unknown_display_name, unknown_display_name,
    utf16_decoded, utf16_wellformed,
};
use crate::normalize::{
    compute_scale_milli, normalize_coord, normalize_len, rotation_from_orientation,
    spec_clamp_u32, spec_compute_scale_milli, spec_normalize_coord, spec_normalize_len,
    spec_rotation_from_orientation,
};
use crate::resolver::{
    get_from_point_in, spec_contains_point, spec_no_containing, spec_resolves_point,
};

verus! {

/// The current display settings of one GDI device, as the settings query
/// reports them.
#[derive(Debug, Clone, Copy)]
pub struct WinDevMode {
    /// Position of the monitor in the virtual desktop, raw pixels.
    pub position: (i32, i32),
    /// Size of the current mode, raw pixels.
    pub pels_width: u32,
    pub pels_height: u32,
    /// The display orientation code: 0..=3 for 0, 90, 180, 270 degrees.
    pub orientation: u32,
    /// Refresh rate in hertz.
    pub frequency_hertz: u32,
}

/// One active display path of the display configuration, reduced to the
/// pair the friendly-name lookup reads.
pub struct WinDisplayPath {
    /// The path's source GDI device name, nul-padded UTF-16.
    pub source_device: Vec<u16>,
    /// The path target's friendly device name, nul-padded UTF-16.
    pub friendly_name: Vec<u16>,
}

/// Everything one enumeration reads about one monitor, as plain values.
pub struct WinMonitor {
    /// The HMONITOR value, carried through as the raw handle.
    pub handle: u64,
    /// The GDI device name, nul-padded UTF-16.
    pub device_name: Vec<u16>,
    /// The current display settings; `None` when the query failed. The
    /// settings carry the geometry, so without them this monitor is skipped.
    pub dev_mode: Option<WinDevMode>,
    /// Physical size in millimeters, from the device capabilities.
    pub width_mm: i32,
    pub height_mm: i32,
    /// The monitor's effective DPI; `None` when the process is not
    /// DPI-aware or the query failed.
    pub dpi: Option<u32>,
    /// Desktop and logical horizontal resolution from the device
    /// capabilities, for the scale fallback.
    pub caps: Option<(u32, u32)>,
    /// Whether the monitor info flags this monitor primary.
    pub is_primary_flag: bool,
    /// The adapter's device string, for the friendly-name fallback.
    pub device_string: Option<Vec<u16>>,
}

/// Everything one enumeration reads from the GDI subsystem.
pub struct WinSnapshot {
    pub monitors: Vec<WinMonitor>,
    /// The active display paths, shared by all monitors.
    pub paths: Vec<WinDisplayPath>,
}

/// Relies on fxhash's `hash32`: a hash of the bytes under the crate's fixed
/// seed. The hasher folds native-endian chunks, so nothing is stated of the
/// value; it only serves as an identifier.
#[verifier::external_body]
fn hash_bytes32(bytes: &[u8]) -> u32 {
    fxhash::hash32(bytes)
}

fn vec_u16_eq(a: &Vec<u16>, b: &Vec<u16>) -> (r: bool)
    ensures
        r == (a@ == b@),
{
    let n = a.len();
    if n != b.len() {
        return false;
    }
    let mut i: usize = 0;
    while i < n
        invariant
            n == a@.len(),
            n == b@.len(),
            i <= n,
            forall|j: int| 0 <= j < i ==> a@[j] == b@[j],
        decreases n - i,
    {
        if a[i] != b[i] {
            return false;
        }
        i = i + 1;
    }
    proof {
        assert(a@ =~= b@);
    }
    true
}

/// The first display path whose source device is the given one.
pub open spec fn spec_path_match(paths: Seq<WinDisplayPath>, device: Seq<u16>) -> Option<
    WinDisplayPath,
>
    decreases paths.len(),
{
    if paths.len() == 0 {
        None
    } else if paths[0].source_device@ == device {
        Some(paths[0])
    } else {
        spec_path_match(paths.skip(1), device)
    }
}

/// The name decoded from a nul-padded UTF-16 field, when it is valid UTF-16.
pub open spec fn spec_decoded_name(units: Seq<u16>) -> Option<Seq<char>> {
    if utf16_wellformed(spec_name_units(units)) {
        Some(utf16_decoded(spec_name_units(units)))
    } else {
        None
    }
}

pub open spec fn spec_device_string_name(ds: Option<Vec<u16>>) -> Option<Seq<char>> {
    match ds {
        Some(v) => spec_decoded_name(v@),
        None => None,
    }
}

/// The friendly name of a monitor: the friendly device name of the display
/// path driven by its GDI device, or, when there is no such path or its
/// name is empty or undecodable, the adapter's device string.
pub open spec fn spec_win_friendly(
    paths: Seq<WinDisplayPath>,
    device: Seq<u16>,
    ds: Option<Vec<u16>>,
) -> Option<Seq<char>> {
    match spec_path_match(paths, device) {
        Some(p) => match spec_decoded_name(p.friendly_name@) {
            Some(f) => if f.len() > 0 {
                Some(f)
            } else {
                spec_device_string_name(ds)
            },
            None => spec_device_string_name(ds),
        },
        None => spec_device_string_name(ds),
    }
}

fn device_string_name(ds: &Option<Vec<u16>>) -> (r: Option<String>)
    ensures
        match r {
            Some(s) => spec_device_string_name(*ds) == Some(s@),
            None => spec_device_string_name(*ds) is None,
        },
{
    match ds {
        Some(v) => decode_device_name(v),
        None => None,
    }
}

proof fn lemma_path_match_step(paths: Seq<WinDisplayPath>, device: Seq<u16>, i: int)
    requires
        0 <= i <= paths.len(),
        forall|j: int| 0 <= j < i ==> (#[trigger] paths[j]).source_device@ != device,
    ensures
        spec_path_match(paths, device) == spec_path_match(paths.skip(i), device),
    decreases i,
{
    if i > 0 {
        assert forall|j: int| 0 <= j < i - 1 implies (#[trigger] paths.skip(
            1,
        )[j]).source_device@ != device by {
            assert(paths[j + 1].source_device@ != device);
        }
        lemma_path_match_step(paths.skip(1), device, i - 1);
        assert(paths.skip(1).skip(i - 1) =~= paths.skip(i));
    } else {
        assert(paths.skip(0) =~= paths);
    }
}

/// The friendly name of the monitor with the given device name, decoded.
pub fn pick_friendly_name(
    paths: &Vec<WinDisplayPath>,
    device: &Vec<u16>,
    ds: &Option<Vec<u16>>,
) -> (r: Option<String>)
    ensures
        match r {
            Some(s) => spec_win_friendly(paths@, device@, *ds) == Some(s@),
            None => spec_win_friendly(paths@, device@, *ds) is None,
        },
{
    let n = paths.len();
    let mut i: usize = 0;
    while i < n
        invariant
            n == paths@.len(),
            i <= n,
            forall|j: int| 0 <= j < i ==> (#[trigger] paths@[j]).source_device@ != device@,
        decreases n - i,
    {
        if vec_u16_eq(&paths[i].source_device, device) {
            proof {
                lemma_path_match_step(paths@, device@, i as int);
                assert(paths@.skip(i as int)[0] == paths@[i as int]);
            }
            match decode_device_name(&paths[i].friendly_name) {
                Some(f) => {
                    if f.as_str().is_empty() {
                        return device_string_name(ds);
                    } else {
                        return Some(f);
                    }
                },
                None => {
                    return device_string_name(ds);
                },
            }
        }
        i = i + 1;
    }
    proof {
        lemma_path_match_step(paths@, device@, n as int);
        assert(paths@.skip(n as int).len() == 0);
    }
    device_string_name(ds)
}

/// The scale of a GDI monitor: its effective DPI against the 96-DPI
/// baseline, else the desktop-to-logical resolution ratio of its device
/// context, else 1.0.
pub open spec fn spec_win_scale_milli(dpi: Option<u32>, caps: Option<(u32, u32)>) -> u32 {
    let dpi_milli = match dpi {
        Some(d) => Some(spec_clamp_u32(d * 1000)),
        None => None,
    };
    spec_compute_scale_milli(dpi_milli, None, 0, caps)
}

pub fn win_scale_milli(dpi: Option<u32>, caps: Option<(u32, u32)>) -> (r: u32)
    ensures
        r == spec_win_scale_milli(dpi, caps),
        r > 0,
{
    let dpi_milli = match dpi {
        Some(d) => {
            let q: u64 = d as u64 * 1000;
            if q > u32::MAX as u64 {
                Some(u32::MAX)
            } else {
                Some(q as u32)
            }
        },
        None => None,
    };
    compute_scale_milli(dpi_milli, None, 0, caps)
}

/// What the descriptor of one GDI monitor holds. Its identifier is a hash
/// of the device name, so it is stable across calls but not stated here.
pub open spec fn spec_is_win_descriptor(
    d: DisplayInfo,
    m: WinMonitor,
    paths: Seq<WinDisplayPath>,
    primary: bool,
) -> bool {
    let scale = spec_win_scale_milli(m.dpi, m.caps);
    &&& m.dev_mode is Some
    &&& utf16_wellformed(spec_name_units(m.device_name@))
    &&& d.name@ == utf16_decoded(spec_name_units(m.device_name@))
    &&& match spec_win_friendly(paths, m.device_name@, m.device_string) {
        Some(f) => d.friendly_name@ == f,
        None => d.friendly_name@ == spec_unknown_display_name(d.id),
    }
    &&& d.raw_handle == (ScreenRawHandle { backend: Backend::Gdi, value: m.handle })
    &&& d.x == spec_normalize_coord(m.dev_mode->0.position.0, scale)
    &&& d.y == spec_normalize_coord(m.dev_mode->0.position.1, scale)
    &&& d.width == spec_normalize_len(m.dev_mode->0.pels_width, scale)
    &&& d.height == spec_normalize_len(m.dev_mode->0.pels_height, scale)
    &&& d.width_mm == m.width_mm
    &&& d.height_mm == m.height_mm
    &&& d.rotation == spec_rotation_from_orientation(m.dev_mode->0.orientation)
    &&& d.scale_factor_milli == scale
    &&& d.frequency_millihertz == spec_clamp_u32(m.dev_mode->0.frequency_hertz * 1000)
    &&& d.is_primary == primary
}

/// Whether a monitor yields a descriptor: its settings were readable and
/// its device name decodes (the name supplies the identifier).
pub open spec fn spec_win_usable(m: WinMonitor) -> bool {
    &&& m.dev_mode is Some
    &&& utf16_wellformed(spec_name_units(m.device_name@))
}

/// The descriptor of one monitor; the error says which load-bearing query
/// failed for it.
pub fn build_monitor(m: &WinMonitor, paths: &Vec<WinDisplayPath>) -> (r: DIResult<DisplayInfo>)
    ensures
        r is Ok <==> spec_win_usable(*m),
        r matches Ok(d) ==> spec_is_win_descriptor(d, *m, paths@, m.is_primary_flag)
            && well_formed(d),
        r matches Err(e) ==> if m.dev_mode is Some {
            e is EncodingError
        } else {
            e is QueryFailed
        },
{
    let dm = match m.dev_mode {
        Some(dm) => dm,
        None => {
            return Err(DIError::QueryFailed("display settings query failed".to_owned()));
        },
    };
    let name = match decode_device_name(&m.device_name) {
        Some(n) => n,
        None => {
            return Err(DIError::EncodingError("device name is not valid UTF-16".to_owned()));
        },
    };
    let id = hash_bytes32(name.as_str().as_bytes());
    let friendly = match pick_friendly_name(paths, &m.device_name, &m.device_string) {
        Some(f) => f,
        None => unknown_display_name(id),
    };
    let scale = win_scale_milli(m.dpi, m.caps);
    let freq: u64 = dm.frequency_hertz as u64 * 1000;
    Ok(
        DisplayInfo {
            id,
            name,
            friendly_name: friendly,
            raw_handle: ScreenRawHandle { backend: Backend::Gdi, value: m.handle },
            x: normalize_coord(dm.position.0, scale),
            y: normalize_coord(dm.position.1, scale),
            width: normalize_len(dm.pels_width, scale),
            height: normalize_len(dm.pels_height, scale),
            width_mm: m.width_mm,
            height_mm: m.height_mm,
            rotation: rotation_from_orientation(dm.orientation),
            scale_factor_milli: scale,
            frequency_millihertz: if freq > u32::MAX as u64 {
                u32::MAX
            } else {
                freq as u32
            },
            is_primary: m.is_primary_flag,
        },
    )
}

/// The monitors that yield a descriptor.
pub open spec fn spec_win_kept(ms: Seq<WinMonitor>) -> Seq<WinMonitor>
    decreases ms.len(),
{
    if ms.len() == 0 {
        Seq::empty()
    } else {
        let init = spec_win_kept(ms.drop_last());
        if spec_win_usable(ms.last()) {
            init.push(ms.last())
        } else {
            init
        }
    }
}

pub open spec fn spec_win_primary_at(ks: Seq<WinMonitor>, i: int) -> bool {
    &&& ks[i].is_primary_flag
    &&& forall|j: int| 0 <= j < i ==> !(#[trigger] ks[j]).is_primary_flag
}

/// What a GDI enumeration returns: one descriptor per usable monitor, in
/// enumeration order, and only the first primary flag kept. A monitor whose
/// load-bearing queries failed is skipped; the rest are unaffected.
pub open spec fn spec_is_win_enumeration(
    ds: Seq<DisplayInfo>,
    ms: Seq<WinMonitor>,
    paths: Seq<WinDisplayPath>,
) -> bool {
    let ks = spec_win_kept(ms);
    &&& ds.len() == ks.len()
    &&& forall|i: int|
        0 <= i < ds.len() ==> spec_is_win_descriptor(
            #[trigger] ds[i],
            ks[i],
            paths,
            spec_win_primary_at(ks, i),
        )
}

/// All displays of the captured GDI state, normalized.
pub fn get_all(snap: &WinSnapshot) -> (r: DIResult<Vec<DisplayInfo>>)
    ensures
        r matches Ok(v) && spec_is_win_enumeration(v@, snap.monitors@, snap.paths@),
        r matches Ok(v) ==> all_well_formed(v@) && at_most_one_primary(v@),
{
    let n = snap.monitors.len();
    let mut built: Vec<DisplayInfo> = Vec::new();
    let mut i: usize = 0;
    proof {
        assert(snap.monitors@.take(0) =~= Seq::<WinMonitor>::empty());
    }
    while i < n
        invariant
            n == snap.monitors@.len(),
            i <= n,
            built@.len() == spec_win_kept(snap.monitors@.take(i as int)).len(),
            forall|k: int|
                0 <= k < built@.len() ==> spec_is_win_descriptor(
                    #[trigger] built@[k],
                    spec_win_kept(snap.monitors@.take(i as int))[k],
                    snap.paths@,
                    spec_win_kept(snap.monitors@.take(i as int))[k].is_primary_flag,
                ) && well_formed(built@[k]),
        decreases n - i,
    {
        proof {
            assert(snap.monitors@.take(i + 1 as int).drop_last() =~= snap.monitors@.take(i as int));
            assert(snap.monitors@.take(i + 1 as int).last() == snap.monitors@[i as int]);
        }
        match build_monitor(&snap.monitors[i], &snap.paths) {
            Ok(d) => {
                built.push(d);
            },
            Err(_) => {},
        }
        i = i + 1;
    }
    proof {
        assert(snap.monitors@.take(n as int) =~= snap.monitors@);
    }
    let out = retain_first_primary(&built);
    proof {
        let ks = spec_win_kept(snap.monitors@);
        assert(built@.len() == ks.len());
        assert forall|j: int| 0 <= j < built@.len() implies (#[trigger] built@[j]).is_primary
            == ks[j].is_primary_flag by {
            assert(spec_is_win_descriptor(built@[j], ks[j], snap.paths@, ks[j].is_primary_flag));
        }
        assert forall|k: int| 0 <= k < out@.len() implies spec_is_win_descriptor(
            #[trigger] out@[k],
            ks[k],
            snap.paths@,
            spec_win_primary_at(ks, k),
        ) && well_formed(out@[k]) by {
            assert(di_eq(out@[k], spec_retained(built@, k)));
            assert(spec_is_win_descriptor(built@[k], ks[k], snap.paths@, ks[k].is_primary_flag));
            if spec_first_primary_at(built@, k) {
                assert forall|j: int| 0 <= j < k implies !(#[trigger] ks[j]).is_primary_flag by {
                    assert(!built@[j].is_primary);
                }
                assert(spec_win_primary_at(ks, k));
            }
            if spec_win_primary_at(ks, k) {
                assert forall|j: int| 0 <= j < k implies !(#[trigger] built@[j]).is_primary by {
                    assert(!ks[j].is_primary_flag);
                }
                assert(spec_first_primary_at(built@, k));
            }
        }
    }
    Ok(out)
}

/// The display of the captured GDI state under the given point: the first
/// descriptor whose half-open logical bounds contain it.
pub fn get_from_point(snap: &WinSnapshot, x: i32, y: i32) -> (r: DIResult<DisplayInfo>)
    ensures
        match r {
            Ok(d) => spec_contains_point(d, x, y) && exists|ds: Seq<DisplayInfo>|
                #[trigger] spec_is_win_enumeration(ds, snap.monitors@, snap.paths@)
                    && spec_resolves_point(ds, x, y, d),
            Err(e) => e is NotFound && exists|ds: Seq<DisplayInfo>|
                #[trigger] spec_is_win_enumeration(ds, snap.monitors@, snap.paths@)
                    && spec_no_containing(ds, x, y),
        },
{
    let displays = match get_all(snap) {
        Ok(v) => v,
        Err(e) => {
            return Err(e);
        },
    };
    let r = get_from_point_in(&displays, x, y);
    match r {
        Ok(d) => {
            proof {
                let i = choose|i: int|
                    0 <= i < displays@.len() && di_eq(d, #[trigger] displays@[i])
                        && spec_contains_point(displays@[i], x, y);
                assert(spec_contains_point(d, x, y));
            }
            Ok(d)
        },
        Err(e) => Err(e),
    }
}

/// Two enumerations of one captured GDI state agree on the count, the
/// geometry and the device name of every descriptor. Identifiers are
/// hashes, so they are not compared here (they agree within one process).
pub proof fn lemma_win_enumeration_deterministic(
    a: Seq<DisplayInfo>,
    b: Seq<DisplayInfo>,
    ms: Seq<WinMonitor>,
    paths: Seq<WinDisplayPath>,
)
    requires
        spec_is_win_enumeration(a, ms, paths),
        spec_is_win_enumeration(b, ms, paths),
    ensures
        a.len() == b.len(),
        forall|i: int|
            0 <= i < a.len() ==> same_geometry(#[trigger] a[i], b[i]) && a[i].name@ == b[i].name@,
{
    assert forall|i: int| 0 <= i < a.len() implies same_geometry(#[trigger] a[i], b[i])
        && a[i].name@ == b[i].name@ by {
        let ks = spec_win_kept(ms);
        assert(spec_is_win_descriptor(a[i], ks[i], paths, spec_win_primary_at(ks, i)));
        assert(spec_is_win_descriptor(b[i], ks[i], paths, spec_win_primary_at(ks, i)));
    }
}

} // verus!
