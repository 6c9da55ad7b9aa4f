use vstd::prelude::*;

use crate::display_info::{
    all_well_formed, at_most_one_primary, di_eq, di_seq_eq, retain_first_primary,
    spec_first_primary_at, spec_retained, well_formed, Backend, DisplayInfo, ScreenRawHandle,
};
use crate::error::DIResult;
use crate::names::{
    display_name, spec_display_name, spec_unknown_display_name, unknown_display_name,
};
use crate::normalize::{
    compute_scale_milli, normalize_coord, normalize_degrees, normalize_len, spec_compute_scale_milli,
    spec_normalize_coord, spec_normalize_degrees, spec_normalize_len,
};
use crate::resolver::{
    get_from_point_in, spec_contains_point, spec_no_containing, spec_resolves_point,
};

verus! {

/// The active display mode of one CoreGraphics display.
#[derive(Debug, Clone, Copy, PartialEq, Eq, Structural)]
pub struct MacDisplayMode {
    /// Width of the mode in physical pixels.
    pub pixel_width: u32,
    /// Refresh rate in millihertz.
    pub refresh_millihertz: u32,
}

/// One application-kit screen, reduced to what the friendly-name lookup
/// reads: its display number and its localized name.
pub struct MacScreenName {
    pub screen_number: u32,
    pub localized_name: String,
}

/// Everything one enumeration reads about one CoreGraphics display, as
/// plain values.
pub struct MacDisplay {
    /// The display's CGDirectDisplayID.
    pub id: u32,
    /// Origin of the display's bounds, in points.
    pub origin: (i32, i32),
    /// Size of the display's bounds, in points.
    pub size: (u32, u32),
    /// The display's rotation in degrees.
    pub rotation_degrees: i32,
    /// The active mode; `None` when the mode query failed.
    pub mode: Option<MacDisplayMode>,
    /// Physical size in millimeters.
    pub size_mm: (i32, i32),
    /// Whether this is the main display.
    pub is_main: bool,
}

/// Everything one enumeration reads from the CoreGraphics subsystem.
pub struct MacSnapshot {
    pub displays: Vec<MacDisplay>,
    /// The screens known to the application kit, for friendly names.
    pub screens: Vec<MacScreenName>,
}

/// The first screen with the given display number.
pub open spec fn spec_find_screen(ss: Seq<MacScreenName>, id: u32) -> Option<MacScreenName>
    decreases ss.len(),
{
    if ss.len() == 0 {
        None
    } else if ss[0].screen_number == id {
        Some(ss[0])
    } else {
        spec_find_screen(ss.skip(1), id)
    }
}

proof fn lemma_find_screen_step(ss: Seq<MacScreenName>, id: u32, i: int)
    requires
        0 <= i <= ss.len(),
        forall|j: int| 0 <= j < i ==> (#[trigger] ss[j]).screen_number != id,
    ensures
        spec_find_screen(ss, id) == spec_find_screen(ss.skip(i), id),
    decreases i,
{
    if i > 0 {
        assert forall|j: int| 0 <= j < i - 1 implies (#[trigger] ss.skip(1)[j]).screen_number
            != id by {
            assert(ss[j + 1].screen_number != id);
        }
        lemma_find_screen_step(ss.skip(1), id, i - 1);
        assert(ss.skip(1).skip(i - 1) =~= ss.skip(i));
    } else {
        assert(ss.skip(0) =~= ss);
    }
}

/// The localized name of the screen with the given display number.
pub fn screen_localized_name(screens: &Vec<MacScreenName>, id: u32) -> (r: Option<String>)
    ensures
        match r {
            Some(s) => spec_find_screen(screens@, id) matches Some(sc) && s@ == sc.localized_name@,
            None => spec_find_screen(screens@, id) is None,
        },
{
    let n = screens.len();
    let mut i: usize = 0;
    while i < n
        invariant
            n == screens@.len(),
            i <= n,
            forall|j: int| 0 <= j < i ==> (#[trigger] screens@[j]).screen_number != id,
        decreases n - i,
    {
        if screens[i].screen_number == id {
            proof {
                lemma_find_screen_step(screens@, id, i as int);
                assert(screens@.skip(i as int)[0] == screens@[i as int]);
            }
            return Some(screens[i].localized_name.clone());
        }
        i = i + 1;
    }
    proof {
        lemma_find_screen_step(screens@, id, n as int);
        assert(screens@.skip(n as int).len() == 0);
    }
    None
}

/// What the descriptor of one CoreGraphics display holds. The scale is the
/// ratio of the mode's pixel width to the bounds width, else 1.0; the
/// device name is synthesized from the display number, and the friendly
/// name is the matching screen's localized name.
pub open spec fn spec_is_mac_descriptor(
    d: DisplayInfo,
    m: MacDisplay,
    screens: Seq<MacScreenName>,
    primary: bool,
) -> bool {
    let scale = spec_compute_scale_milli(
        None,
        match m.mode {
            Some(md) => Some(md.pixel_width),
            None => None,
        },
        m.size.0,
        None,
    );
    &&& d.id == m.id
    &&& d.name@ == spec_display_name(m.id)
    &&& match spec_find_screen(screens, m.id) {
        Some(sc) => d.friendly_name@ == sc.localized_name@,
        None => d.friendly_name@ == spec_unknown_display_name(m.id),
    }
    &&& d.raw_handle == (ScreenRawHandle { backend: Backend::CoreGraphics, value: m.id as u64 })
    &&& d.x == spec_normalize_coord(m.origin.0, scale)
    &&& d.y == spec_normalize_coord(m.origin.1, scale)
    &&& d.width == spec_normalize_len(m.size.0, scale)
    &&& d.height == spec_normalize_len(m.size.1, scale)
    &&& d.width_mm == m.size_mm.0
    &&& d.height_mm == m.size_mm.1
    &&& d.rotation == spec_normalize_degrees(m.rotation_degrees)
    &&& d.scale_factor_milli == scale
    &&& d.frequency_millihertz == match m.mode {
        Some(md) => md.refresh_millihertz,
        None => 0,
    }
    &&& d.is_primary == primary
}

/// The descriptor of one display; construction cannot fail, as every
/// missing optional degrades to its documented default.
pub fn build_display(m: &MacDisplay, screens: &Vec<MacScreenName>) -> (r: DisplayInfo)
    ensures
        spec_is_mac_descriptor(r, *m, screens@, m.is_main),
        well_formed(r),
{
    let scale = compute_scale_milli(
        None,
        match m.mode {
            Some(md) => Some(md.pixel_width),
            None => None,
        },
        m.size.0,
        None,
    );
    let friendly = match screen_localized_name(screens, m.id) {
        Some(s) => s,
        None => unknown_display_name(m.id),
    };
    DisplayInfo {
        id: m.id,
        name: display_name(m.id),
        friendly_name: friendly,
        raw_handle: ScreenRawHandle { backend: Backend::CoreGraphics, value: m.id as u64 },
        x: normalize_coord(m.origin.0, scale),
        y: normalize_coord(m.origin.1, scale),
        width: normalize_len(m.size.0, scale),
        height: normalize_len(m.size.1, scale),
        width_mm: m.size_mm.0,
        height_mm: m.size_mm.1,
        rotation: normalize_degrees(m.rotation_degrees),
        scale_factor_milli: scale,
        frequency_millihertz: match m.mode {
            Some(md) => md.refresh_millihertz,
            None => 0,
        },
        is_primary: m.is_main,
    }
}

pub open spec fn spec_mac_primary_at(ms: Seq<MacDisplay>, i: int) -> bool {
    &&& ms[i].is_main
    &&& forall|j: int| 0 <= j < i ==> !(#[trigger] ms[j]).is_main
}

/// What a CoreGraphics enumeration returns: one descriptor per active
/// display, in list order, and only the first main flag kept.
pub open spec fn spec_is_mac_enumeration(
    ds: Seq<DisplayInfo>,
    ms: Seq<MacDisplay>,
    screens: Seq<MacScreenName>,
) -> bool {
    &&& ds.len() == ms.len()
    &&& forall|i: int|
        0 <= i < ds.len() ==> spec_is_mac_descriptor(
            #[trigger] ds[i],
            ms[i],
            screens,
            spec_mac_primary_at(ms, i),
        )
}

/// All displays of the captured CoreGraphics state, normalized.
pub fn get_all(snap: &MacSnapshot) -> (r: DIResult<Vec<DisplayInfo>>)
    ensures
        r matches Ok(v) && spec_is_mac_enumeration(v@, snap.displays@, snap.screens@),
        r matches Ok(v) ==> all_well_formed(v@) && at_most_one_primary(v@),
{
    let n = snap.displays.len();
    let mut built: Vec<DisplayInfo> = Vec::new();
    let mut i: usize = 0;
    while i < n
        invariant
            n == snap.displays@.len(),
            i <= n,
            built@.len() == i,
            forall|k: int|
                0 <= k < i ==> spec_is_mac_descriptor(
                    #[trigger] built@[k],
                    snap.displays@[k],
                    snap.screens@,
                    snap.displays@[k].is_main,
                ) && well_formed(built@[k]),
        decreases n - i,
    {
        let d = build_display(&snap.displays[i], &snap.screens);
        built.push(d);
        i = i + 1;
    }
    let out = retain_first_primary(&built);
    proof {
        let ms = snap.displays@;
        assert forall|j: int| 0 <= j < built@.len() implies (#[trigger] built@[j]).is_primary
            == ms[j].is_main by {
            assert(spec_is_mac_descriptor(built@[j], ms[j], snap.screens@, ms[j].is_main));
        }
        assert forall|k: int| 0 <= k < out@.len() implies spec_is_mac_descriptor(
            #[trigger] out@[k],
            ms[k],
            snap.screens@,
            spec_mac_primary_at(ms, k),
        ) && well_formed(out@[k]) by {
            assert(di_eq(out@[k], spec_retained(built@, k)));
            assert(spec_is_mac_descriptor(built@[k], ms[k], snap.screens@, ms[k].is_main));
            if spec_first_primary_at(built@, k) {
                assert forall|j: int| 0 <= j < k implies !(#[trigger] ms[j]).is_main by {
                    assert(!built@[j].is_primary);
                }
                assert(spec_mac_primary_at(ms, k));
            }
            if spec_mac_primary_at(ms, k) {
                assert forall|j: int| 0 <= j < k implies !(#[trigger] built@[j]).is_primary by {
                    assert(!ms[j].is_main);
                }
                assert(spec_first_primary_at(built@, k));
            }
        }
    }
    Ok(out)
}

/// The display of the captured CoreGraphics state under the given point:
/// the first descriptor whose half-open logical bounds contain it.
pub fn get_from_point(snap: &MacSnapshot, x: i32, y: i32) -> (r: DIResult<DisplayInfo>)
    ensures
        match r {
            Ok(d) => spec_contains_point(d, x, y) && exists|ds: Seq<DisplayInfo>|
                #[trigger] spec_is_mac_enumeration(ds, snap.displays@, snap.screens@)
                    && spec_resolves_point(ds, x, y, d),
            Err(e) => e is NotFound && exists|ds: Seq<DisplayInfo>|
                #[trigger] spec_is_mac_enumeration(ds, snap.displays@, snap.screens@)
                    && spec_no_containing(ds, x, y),
        },
{
    let displays = match get_all(snap) {
        Ok(v) => v,
        Err(e) => {
            return Err(e);
        },
    };
    let r = get_from_point_in(&displays, x, y);
    match r {
        Ok(d) => {
            proof {
                let i = choose|i: int|
                    0 <= i < displays@.len() && di_eq(d, #[trigger] displays@[i])
                        && spec_contains_point(displays@[i], x, y);
                assert(spec_contains_point(d, x, y));
            }
            Ok(d)
        },
        Err(e) => Err(e),
    }
}

/// Two enumerations of one captured CoreGraphics state agree on every field
/// of every descriptor.
pub proof fn lemma_mac_enumeration_deterministic(
    a: Seq<DisplayInfo>,
    b: Seq<DisplayInfo>,
    ms: Seq<MacDisplay>,
    screens: Seq<MacScreenName>,
)
    requires
        spec_is_mac_enumeration(a, ms, screens),
        spec_is_mac_enumeration(b, ms, screens),
    ensures
        di_seq_eq(a, b),
{
    assert forall|i: int| 0 <= i < a.len() implies di_eq(#[trigger] a[i], b[i]) by {
        assert(spec_is_mac_descriptor(a[i], ms[i], screens, spec_mac_primary_at(ms, i)));
        assert(spec_is_mac_descriptor(b[i], ms[i], screens, spec_mac_primary_at(ms, i)));
    }
}

} // verus!
